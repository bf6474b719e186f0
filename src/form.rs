//! Variable sets as text: `name=value` pairs joined by `&`, with `+` for a space.
use vstd::prelude::*;

verus! {

/// The state of a left-to-right scan of a variable set.
pub struct FormScan {
    /// The pairs completed so far.
    pub pairs: Seq<(Seq<char>, Seq<char>)>,
    /// The name of the pair being read.
    pub name: Seq<char>,
    /// The value of the pair being read.
    pub value: Seq<char>,
    /// Whether the `=` of the pair being read was seen.
    pub in_value: bool,
}

/// The character a variable set's character stands for: `+` is a space.
pub open spec fn form_char(c: char) -> char {
    if c == '+' {
        ' '
    } else {
        c
    }
}

/// The pairs with the pair being read added, where it has a name.
pub open spec fn close_pair(st: FormScan) -> Seq<(Seq<char>, Seq<char>)> {
    if st.name.len() > 0 {
        st.pairs.push((st.name, st.value))
    } else {
        st.pairs
    }
}

/// The scan after one more character: `&` ends a pair, the first `=` of a pair
/// ends its name, and any other character extends the name or the value.
pub open spec fn scan_char(st: FormScan, c: char) -> FormScan {
    if c == '&' {
        FormScan { pairs: close_pair(st), name: seq![], value: seq![], in_value: false }
    } else if c == '=' && !st.in_value {
        FormScan { in_value: true, ..st }
    } else if st.in_value {
        FormScan { value: st.value.push(form_char(c)), ..st }
    } else {
        FormScan { name: st.name.push(form_char(c)), ..st }
    }
}

/// The scan of a whole text.
pub open spec fn scan(s: Seq<char>) -> FormScan
    decreases s.len(),
{
    if s.len() == 0 {
        FormScan { pairs: seq![], name: seq![], value: seq![], in_value: false }
    } else {
        scan_char(scan(s.drop_last()), s.last())
    }
}

/// The variables a text sets, in order; pairs without a name are left out.
pub open spec fn form_pairs(s: Seq<char>) -> Seq<(Seq<char>, Seq<char>)> {
    close_pair(scan(s))
}

/// The models of decoded pairs.
pub open spec fn pairs_model(v: Seq<(Vec<char>, Vec<char>)>) -> Seq<(Seq<char>, Seq<char>)> {
    v.map_values(|p: (Vec<char>, Vec<char>)| (p.0@, p.1@))
}

/// Add the pair being read to `pairs`, where it has a name.
fn close_pair_exec(pairs: &mut Vec<(Vec<char>, Vec<char>)>, name: Vec<char>, value: Vec<char>)
    ensures
        pairs_model(final(pairs)@) == close_pair(
            FormScan { pairs: pairs_model(old(pairs)@), name: name@, value: value@, in_value: false },
        ),
{
    if name.len() > 0 {
        let ghost before = pairs@;
        let ghost p = (name@, value@);
        pairs.push((name, value));
        assert(pairs_model(pairs@) =~= pairs_model(before).push(p));
    }
}

/// Decode a loaded variable set, as `form_pairs` says.
pub fn parse_variables(text: &Vec<char>) -> (r: Vec<(Vec<char>, Vec<char>)>)
    ensures
        pairs_model(r@) == form_pairs(text@),
{
    let mut pairs: Vec<(Vec<char>, Vec<char>)> = Vec::new();
    let mut name: Vec<char> = Vec::new();
    let mut value: Vec<char> = Vec::new();
    let mut in_value = false;
    let mut i: usize = 0;
    assert(pairs_model(pairs@) =~= Seq::<(Seq<char>, Seq<char>)>::empty());
    assert(text@.take(0) =~= Seq::<char>::empty());
    while i < text.len()
        invariant
            i <= text.len(),
            scan(text@.take(i as int)) == (FormScan {
                pairs: pairs_model(pairs@),
                name: name@,
                value: value@,
                in_value,
            }),
        decreases text.len() - i,
    {
        let c = text[i];
        assert(text@.take(i + 1).drop_last() =~= text@.take(i as int));
        assert(text@.take(i + 1).last() == c);
        let d = if c == '+' { ' ' } else { c };
        if c == '&' {
            let mut n: Vec<char> = Vec::new();
            let mut v: Vec<char> = Vec::new();
            std::mem::swap(&mut n, &mut name);
            std::mem::swap(&mut v, &mut value);
            close_pair_exec(&mut pairs, n, v);
            in_value = false;
            assert(name@ =~= Seq::<char>::empty());
            assert(value@ =~= Seq::<char>::empty());
        } else if c == '=' && !in_value {
            in_value = true;
        } else if in_value {
            value.push(d);
        } else {
            name.push(d);
        }
        i += 1;
    }
    assert(text@.take(i as int) =~= text@);
    close_pair_exec(&mut pairs, name, value);
    pairs
}


/// The character that stands for `c` in a variable set: a space is `+`.
pub open spec fn encode_char(c: char) -> char {
    if c == ' ' {
        '+'
    } else {
        c
    }
}

/// The text that stands for `s` in a variable set.
pub open spec fn encode_text(s: Seq<char>) -> Seq<char> {
    s.map_values(|c: char| encode_char(c))
}

/// The text of one pair.
pub open spec fn pair_text(p: (Seq<char>, Seq<char>)) -> Seq<char> {
    encode_text(p.0) + seq!['='] + encode_text(p.1)
}

/// The text of a variable set: its pairs' texts joined by `&`.
pub open spec fn form_text(pairs: Seq<(Seq<char>, Seq<char>)>) -> Seq<char>
    decreases pairs.len(),
{
    if pairs.len() == 0 {
        seq![]
    } else if pairs.len() == 1 {
        pair_text(pairs[0])
    } else {
        form_text(pairs.drop_last()) + seq!['&'] + pair_text(pairs.last())
    }
}

/// A name that survives a round trip: not empty, without `&`, `=` or `+`.
pub open spec fn clean_name(s: Seq<char>) -> bool {
    s.len() > 0 && forall|i: int| 0 <= i < s.len() ==> s[i] != '&' && s[i] != '=' && s[i] != '+'
}

/// A value that survives a round trip: without `&` or `+`.
pub open spec fn clean_value(s: Seq<char>) -> bool {
    forall|i: int| 0 <= i < s.len() ==> s[i] != '&' && s[i] != '+'
}

/// Every pair survives a round trip.
pub open spec fn clean_pairs(pairs: Seq<(Seq<char>, Seq<char>)>) -> bool {
    forall|i: int| 0 <= i < pairs.len() ==> clean_name(#[trigger] pairs[i].0) && clean_value(pairs[i].1)
}

/// The scan after more characters.
pub open spec fn scan_from(st: FormScan, s: Seq<char>) -> FormScan
    decreases s.len(),
{
    if s.len() == 0 {
        st
    } else {
        scan_char(scan_from(st, s.drop_last()), s.last())
    }
}

/// The empty scan.
pub open spec fn start_scan() -> FormScan {
    FormScan { pairs: seq![], name: seq![], value: seq![], in_value: false }
}

proof fn lemma_scan_is_scan_from(s: Seq<char>)
    ensures
        scan(s) == scan_from(start_scan(), s),
    decreases s.len(),
{
    if s.len() > 0 {
        lemma_scan_is_scan_from(s.drop_last());
    }
}

proof fn lemma_scan_from_append(st: FormScan, a: Seq<char>, b: Seq<char>)
    ensures
        scan_from(st, a + b) == scan_from(scan_from(st, a), b),
    decreases b.len(),
{
    if b.len() == 0 {
        assert(a + b =~= a);
    } else {
        assert((a + b).drop_last() =~= a + b.drop_last());
        assert((a + b).last() == b.last());
        lemma_scan_from_append(st, a, b.drop_last());
    }
}

/// Scanning an encoded name extends the name being read.
proof fn lemma_scan_name(st: FormScan, s: Seq<char>)
    requires
        !st.in_value,
        forall|i: int| 0 <= i < s.len() ==> s[i] != '&' && s[i] != '=' && s[i] != '+',
    ensures
        scan_from(st, encode_text(s)) == (FormScan { name: st.name + s, ..st }),
    decreases s.len(),
{
    if s.len() == 0 {
        assert(encode_text(s) =~= Seq::<char>::empty());
        assert(st.name + s =~= st.name);
    } else {
        let t = encode_text(s);
        assert(t.drop_last() =~= encode_text(s.drop_last()));
        lemma_scan_name(st, s.drop_last());
        assert(st.name + s.drop_last() + seq![s.last()] =~= st.name + s);
        assert(t.last() == encode_char(s.last()));
        assert((st.name + s.drop_last()).push(form_char(encode_char(s.last()))) =~= st.name + s);
    }
}

/// Scanning an encoded value extends the value being read.
proof fn lemma_scan_value(st: FormScan, s: Seq<char>)
    requires
        st.in_value,
        forall|i: int| 0 <= i < s.len() ==> s[i] != '&' && s[i] != '+',
    ensures
        scan_from(st, encode_text(s)) == (FormScan { value: st.value + s, ..st }),
    decreases s.len(),
{
    if s.len() == 0 {
        assert(encode_text(s) =~= Seq::<char>::empty());
        assert(st.value + s =~= st.value);
    } else {
        let t = encode_text(s);
        assert(t.drop_last() =~= encode_text(s.drop_last()));
        lemma_scan_value(st, s.drop_last());
        assert(t.last() == encode_char(s.last()));
        assert((st.value + s.drop_last()).push(form_char(encode_char(s.last()))) =~= st.value + s);
    }
}

/// Scanning a clean pair's text from a fresh pair reads exactly that pair.
proof fn lemma_scan_pair(pairs: Seq<(Seq<char>, Seq<char>)>, p: (Seq<char>, Seq<char>))
    requires
        clean_name(p.0),
        clean_value(p.1),
    ensures
        scan_from(FormScan { pairs, name: seq![], value: seq![], in_value: false }, pair_text(p)) == (FormScan {
            pairs,
            name: p.0,
            value: p.1,
            in_value: true,
        }),
{
    let st0 = FormScan { pairs, name: seq![], value: seq![], in_value: false };
    lemma_scan_name(st0, p.0);
    let st1 = FormScan { name: p.0, ..st0 };
    assert(seq![] + p.0 =~= p.0);
    lemma_scan_from_append(st0, encode_text(p.0), seq!['=']);
    assert(seq!['='].drop_last() =~= Seq::<char>::empty());
    let st2 = FormScan { in_value: true, ..st1 };
    assert(scan_from(st1, Seq::<char>::empty()) == st1);
    assert(seq!['='].last() == '=');
    assert(scan_from(st1, seq!['=']) == scan_char(scan_from(st1, seq!['='].drop_last()), '='));
    assert(scan_from(st1, seq!['=']) == st2);
    lemma_scan_value(st2, p.1);
    assert(seq![] + p.1 =~= p.1);
    lemma_scan_from_append(st0, encode_text(p.0) + seq!['='], encode_text(p.1));
}

/// The scan of the text of clean pairs holds all but the last as completed
/// pairs and is reading the last.
proof fn lemma_scan_form_text(pairs: Seq<(Seq<char>, Seq<char>)>)
    requires
        pairs.len() > 0,
        clean_pairs(pairs),
    ensures
        scan(form_text(pairs)) == (FormScan {
            pairs: pairs.drop_last(),
            name: pairs.last().0,
            value: pairs.last().1,
            in_value: true,
        }),
    decreases pairs.len(),
{
    assert(clean_name(pairs.last().0) && clean_value(pairs.last().1));
    lemma_scan_is_scan_from(form_text(pairs));
    if pairs.len() == 1 {
        lemma_scan_pair(seq![], pairs[0]);
        assert(pairs.drop_last() =~= Seq::<(Seq<char>, Seq<char>)>::empty());
    } else {
        let init = pairs.drop_last();
        assert forall|i: int| 0 <= i < init.len() implies clean_name(#[trigger] init[i].0) && clean_value(
            init[i].1,
        ) by {
            assert(init[i] == pairs[i]);
        }
        lemma_scan_form_text(init);
        lemma_scan_is_scan_from(form_text(init));
        let st = scan(form_text(init));
        assert(clean_name(init.last().0));
        let after_amp = FormScan { pairs: close_pair(st), name: seq![], value: seq![], in_value: false };
        assert(close_pair(st) =~= init.drop_last().push(init.last()));
        assert(init.drop_last().push(init.last()) =~= init);
        lemma_scan_from_append(start_scan(), form_text(init), seq!['&']);
        assert(seq!['&'].drop_last() =~= Seq::<char>::empty());
        assert(scan_from(st, Seq::<char>::empty()) == st);
        assert(seq!['&'].last() == '&');
        assert(scan_from(st, seq!['&']) == scan_char(scan_from(st, seq!['&'].drop_last()), '&'));
        assert(scan_from(st, seq!['&']) == after_amp);
        lemma_scan_pair(init, pairs.last());
        lemma_scan_from_append(start_scan(), form_text(init) + seq!['&'], pair_text(pairs.last()));
    }
}

/// Decoding the text of a variable set gives the set back, where every name is
/// clean and every value is clean.
pub proof fn lemma_form_round_trip(pairs: Seq<(Seq<char>, Seq<char>)>)
    requires
        clean_pairs(pairs),
    ensures
        form_pairs(form_text(pairs)) == pairs,
{
    if pairs.len() == 0 {
        assert(form_text(pairs) =~= Seq::<char>::empty());
        assert(pairs =~= Seq::<(Seq<char>, Seq<char>)>::empty());
    } else {
        lemma_scan_form_text(pairs);
        assert(clean_name(pairs.last().0));
        assert(pairs.drop_last().push(pairs.last()) =~= pairs);
    }
}

/// Append the encoded text of `s`.
fn push_encoded(out: &mut Vec<char>, s: &Vec<char>)
    ensures
        final(out)@ == old(out)@ + encode_text(s@),
{
    let mut i: usize = 0;
    while i < s.len()
        invariant
            i <= s.len(),
            out@ == old(out)@ + encode_text(s@.take(i as int)),
        decreases s.len() - i,
    {
        let c = s[i];
        out.push(if c == ' ' { '+' } else { c });
        assert(encode_text(s@.take(i + 1)) =~= encode_text(s@.take(i as int)).push(encode_char(c)));
        i += 1;
    }
    assert(s@.take(i as int) =~= s@);
}

/// The text of a variable set, as `form_text` says.
pub fn encode_variables(pairs: &Vec<(Vec<char>, Vec<char>)>) -> (r: Vec<char>)
    ensures
        r@ == form_text(pairs_model(pairs@)),
{
    let ghost pm = pairs_model(pairs@);
    let mut out: Vec<char> = Vec::new();
    let mut i: usize = 0;
    assert(pm.take(0) =~= Seq::<(Seq<char>, Seq<char>)>::empty());
    while i < pairs.len()
        invariant
            i <= pairs.len(),
            pm == pairs_model(pairs@),
            out@ == form_text(pm.take(i as int)),
        decreases pairs.len() - i,
    {
        let ghost before = out@;
        if i > 0 {
            out.push('&');
        }
        push_encoded(&mut out, &pairs[i].0);
        out.push('=');
        push_encoded(&mut out, &pairs[i].1);
        assert(pm.take(i + 1).drop_last() =~= pm.take(i as int));
        assert(pm.take(i + 1).last() == pm[i as int]);
        if i == 0 {
            assert(out@ =~= pair_text(pm[0]));
        } else {
            assert(out@ =~= before + seq!['&'] + pair_text(pm[i as int]));
        }
        i += 1;
    }
    assert(pm.take(i as int) =~= pm);
    out
}

} // verus!
