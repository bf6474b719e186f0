//! Script objects: property bags with insertion order and flags, prototype
//! lookup with a hop limit, version-dependent name matching, and arrays.
use vstd::prelude::*;
use crate::value::{
    Value, ValueModel, Number, text_number, chars_to_number, nat_digits, copy_chars, nat_to_chars,
    num_of_int, value_text, to_text,
};
use crate::form::pairs_model;

verus! {

/// How many prototype links a lookup follows before it gives up with `undefined`.
pub const MAX_PROTO_HOPS: usize = 256;

/// The first content version whose property names are case-sensitive.
pub const CASE_SENSITIVE_VERSION: u8 = 7;

/// One property of an object.
pub struct Property {
    /// The property's name as first set.
    pub name: Vec<char>,
    /// The property's value.
    pub value: Value,
    /// Whether `for..in` lists it.
    pub enumerable: bool,
    /// Whether assignments leave it unchanged.
    pub readonly: bool,
}

/// What a property holds.
pub struct PropertyModel {
    /// The property's name.
    pub name: Seq<char>,
    /// The property's value.
    pub value: ValueModel,
    /// Whether `for..in` lists it.
    pub enumerable: bool,
    /// Whether assignments leave it unchanged.
    pub readonly: bool,
}

impl View for Property {
    type V = PropertyModel;

    open spec fn view(&self) -> PropertyModel {
        PropertyModel {
            name: self.name@,
            value: self.value@,
            enumerable: self.enumerable,
            readonly: self.readonly,
        }
    }
}

/// A script object.
pub struct ScriptObject {
    /// Own properties in insertion order.
    pub props: Vec<Property>,
    /// The prototype, by index in the store.
    pub proto: Option<usize>,
    /// The dense elements, for an array.
    pub elements: Option<Vec<Value>>,
}

/// What an object holds.
pub struct ObjectModel {
    /// Own properties in insertion order.
    pub props: Seq<PropertyModel>,
    /// The prototype.
    pub proto: Option<usize>,
    /// The dense elements, for an array.
    pub elements: Option<Seq<ValueModel>>,
}

/// The models of a sequence of values.
pub open spec fn values_model(v: Seq<Value>) -> Seq<ValueModel> {
    v.map_values(|x: Value| x@)
}

impl View for ScriptObject {
    type V = ObjectModel;

    open spec fn view(&self) -> ObjectModel {
        ObjectModel {
            props: self.props@.map_values(|p: Property| p@),
            proto: self.proto,
            elements: match &self.elements {
                Some(e) => Some(values_model(e@)),
                None => None,
            },
        }
    }
}

/// Whether two characters match ignoring ASCII case.
pub open spec fn chars_match(c: char, d: char) -> bool {
    c == d || (65 <= (c as u32) <= 90 && (c as u32) + 32 == (d as u32)) || (65 <= (d as u32) <= 90
        && (d as u32) + 32 == (c as u32))
}

/// Whether two property names denote the same property under the given
/// version: exactly equal from the case-sensitive version on, else equal
/// ignoring ASCII case.
pub open spec fn names_match(version: u8, a: Seq<char>, b: Seq<char>) -> bool {
    if version >= CASE_SENSITIVE_VERSION {
        a == b
    } else {
        a.len() == b.len() && forall|i: int| 0 <= i < a.len() ==> #[trigger] chars_match(a[i], b[i])
    }
}

/// The first position at or after `i` whose property matches `name`.
pub open spec fn find_from(version: u8, props: Seq<PropertyModel>, name: Seq<char>, i: int) -> Option<int>
    decreases props.len() - i,
{
    if i < 0 || i >= props.len() {
        None
    } else if names_match(version, props[i].name, name) {
        Some(i)
    } else {
        find_from(version, props, name, i + 1)
    }
}

/// A match found from position `i` lies at or after it and within the properties.
proof fn lemma_find_from_bounds(version: u8, props: Seq<PropertyModel>, name: Seq<char>, i: int)
    ensures
        find_from(version, props, name, i) is Some ==> i <= find_from(version, props, name, i).unwrap()
            < props.len(),
    decreases props.len() - i,
{
    if 0 <= i < props.len() && !names_match(version, props[i].name, name) {
        lemma_find_from_bounds(version, props, name, i + 1);
    }
}

/// The position of the property that `name` denotes, if any.
pub open spec fn find_prop(version: u8, props: Seq<PropertyModel>, name: Seq<char>) -> Option<int> {
    find_from(version, props, name, 0)
}

/// The text `length`.
pub open spec fn length_name() -> Seq<char> {
    seq!['l', 'e', 'n', 'g', 't', 'h']
}

/// The element index a name denotes: a decimal integer without a sign.
pub open spec fn element_index(name: Seq<char>) -> Option<int> {
    if name.len() > 0 && name[0] != '-' {
        match text_number(name) {
            Number::Int(k) => Some(k as int),
            _ => None,
        }
    } else {
        None
    }
}

/// The value an object itself holds under `name`: for an array its `length`
/// and its elements, then its own properties.
pub open spec fn own_value(version: u8, o: ObjectModel, name: Seq<char>) -> Option<ValueModel> {
    let e = o.elements.unwrap_or(seq![]);
    if o.elements is Some && name == length_name() {
        Some(ValueModel::Num(num_of_int(e.len() as int)))
    } else if o.elements is Some && element_index(name) is Some && 0 <= element_index(name).unwrap()
        < e.len() {
        Some(e[element_index(name).unwrap()])
    } else {
        match find_prop(version, o.props, name) {
            Some(i) => Some(o.props[i].value),
            None => None,
        }
    }
}

/// What reading `name` from object `obj` gives: its own value, else the value
/// along its prototype chain, following at most `hops` links; `undefined` where
/// nothing holds it, where the chain ends or where the hops run out.
pub open spec fn lookup(version: u8, objs: Seq<ObjectModel>, obj: int, name: Seq<char>, hops: nat) -> ValueModel
    decreases hops,
{
    if obj < 0 || obj >= objs.len() {
        ValueModel::Undefined
    } else {
        match own_value(version, objs[obj], name) {
            Some(v) => v,
            None => match objs[obj].proto {
                Some(p) => if hops == 0 {
                    ValueModel::Undefined
                } else {
                    lookup(version, objs, p as int, name, (hops - 1) as nat)
                },
                None => ValueModel::Undefined,
            },
        }
    }
}

/// The object after assigning `v` to `name`. For an array, `length` is left as
/// it is and an index below the length replaces that element. Otherwise the
/// matching own property takes the value unless it is read-only; with no match
/// a new enumerable, writable property is added at the end.
pub open spec fn assign(version: u8, o: ObjectModel, name: Seq<char>, v: ValueModel) -> ObjectModel {
    let e = o.elements.unwrap_or(seq![]);
    if o.elements is Some && name == length_name() {
        o
    } else if o.elements is Some && element_index(name) is Some && 0 <= element_index(name).unwrap()
        < e.len() {
        ObjectModel { elements: Some(e.update(element_index(name).unwrap(), v)), ..o }
    } else {
        match find_prop(version, o.props, name) {
            Some(i) => if o.props[i].readonly {
                o
            } else {
                ObjectModel {
                    props: o.props.update(i, PropertyModel { value: v, ..o.props[i] }),
                    ..o
                }
            },
            None => ObjectModel {
                props: o.props.push(
                    PropertyModel { name, value: v, enumerable: true, readonly: false },
                ),
                ..o
            },
        }
    }
}

/// The names of the enumerable properties, in insertion order.
pub open spec fn enumerable_names(props: Seq<PropertyModel>) -> Seq<Seq<char>>
    decreases props.len(),
{
    if props.len() == 0 {
        seq![]
    } else {
        let rest = enumerable_names(props.drop_last());
        if props.last().enumerable {
            rest.push(props.last().name)
        } else {
            rest
        }
    }
}

/// The names of the indices `0..n`, ascending.
pub open spec fn index_names(n: nat) -> Seq<Seq<char>> {
    Seq::new(n, |i: int| nat_digits(i as nat))
}

/// The names `for..in` lists for an object: an array's indices ascending, then
/// the enumerable own properties in insertion order.
pub open spec fn keys(o: ObjectModel) -> Seq<Seq<char>> {
    match o.elements {
        Some(e) => index_names(e.len()) + enumerable_names(o.props),
        None => enumerable_names(o.props),
    }
}

/// `lo` clamped to `0..=n`.
pub open spec fn clamp(lo: int, n: int) -> int {
    if lo < 0 {
        0
    } else if lo > n {
        n
    } else {
        lo
    }
}

/// The elements after removing `count` of them from `start` and inserting
/// `items` there; `start` and `count` are clamped to the elements.
pub open spec fn spliced(e: Seq<ValueModel>, start: int, count: int, items: Seq<ValueModel>) -> Seq<ValueModel> {
    let s = clamp(start, e.len() as int);
    let t = clamp(s + count, e.len() as int);
    e.take(s) + items + e.skip(t)
}


/// Copy a sequence of values.
pub fn copy_values(v: &Vec<Value>) -> (r: Vec<Value>)
    ensures
        values_model(r@) == values_model(v@),
{
    let mut r: Vec<Value> = Vec::new();
    copy_range(&mut r, v, 0, v.len());
    assert(values_model(v@).subrange(0, v@.len() as int) =~= values_model(v@));
    assert(Seq::<ValueModel>::empty() + values_model(v@) =~= values_model(v@));
    r
}

/// Append copies of `src[from..to]` to `out`.
pub fn copy_range(out: &mut Vec<Value>, src: &Vec<Value>, from: usize, to: usize)
    requires
        from <= to <= src.len(),
    ensures
        values_model(final(out)@) == values_model(old(out)@) + values_model(src@).subrange(
            from as int,
            to as int,
        ),
{
    let mut i: usize = from;
    while i < to
        invariant
            from <= i <= to <= src.len(),
            values_model(out@) == values_model(old(out)@) + values_model(src@).subrange(
                from as int,
                i as int,
            ),
        decreases to - i,
    {
        let ghost before = out@;
        out.push(src[i].copy());
        assert(values_model(out@) =~= values_model(before).push(src@[i as int]@));
        assert(values_model(src@).subrange(from as int, i + 1) =~= values_model(src@).subrange(
            from as int,
            i as int,
        ).push(src@[i as int]@));
        i += 1;
    }
}

/// Whether two characters match ignoring ASCII case.
fn chars_match_exec(c: char, d: char) -> (r: bool)
    ensures
        r == chars_match(c, d),
{
    let cu = c as u32;
    let du = d as u32;
    c == d || (65 <= cu && cu <= 90 && cu + 32 == du) || (65 <= du && du <= 90 && du + 32 == cu)
}

/// Whether two property names denote the same property under `version`.
pub fn names_equal(version: u8, a: &Vec<char>, b: &Vec<char>) -> (r: bool)
    ensures
        r == names_match(version, a@, b@),
{
    if version >= CASE_SENSITIVE_VERSION {
        return crate::value::chars_eq(a, b);
    }
    if a.len() != b.len() {
        return false;
    }
    let mut i: usize = 0;
    while i < a.len()
        invariant
            a.len() == b.len(),
            i <= a.len(),
            version < CASE_SENSITIVE_VERSION,
            forall|j: int| 0 <= j < i ==> #[trigger] chars_match(a@[j], b@[j]),
        decreases a.len() - i,
    {
        if !chars_match_exec(a[i], b[i]) {
            return false;
        }
        i += 1;
    }
    true
}

/// The position of the property that `name` denotes.
pub fn find_property(version: u8, props: &Vec<Property>, name: &Vec<char>) -> (r: Option<usize>)
    ensures
        r is Some <==> find_prop(version, props@.map_values(|p: Property| p@), name@) is Some,
        r is Some ==> r.unwrap() as int == find_prop(
            version,
            props@.map_values(|p: Property| p@),
            name@,
        ).unwrap(),
        r is Some ==> r.unwrap() < props@.len(),
{
    let ghost pm = props@.map_values(|p: Property| p@);
    proof {
        lemma_find_from_bounds(version, pm, name@, 0);
    }
    let mut i: usize = 0;
    while i < props.len()
        invariant
            i <= props.len(),
            pm == props@.map_values(|p: Property| p@),
            find_prop(version, pm, name@) == find_from(version, pm, name@, i as int),
        decreases props.len() - i,
    {
        if names_equal(version, &props[i].name, name) {
            return Some(i);
        }
        i += 1;
    }
    None
}

/// The element index a name denotes, as `element_index` says.
fn element_index_of(name: &Vec<char>) -> (r: Option<i64>)
    ensures
        r is Some <==> element_index(name@) is Some,
        r is Some ==> r.unwrap() as int == element_index(name@).unwrap(),
{
    if name.len() > 0 && name[0] != '-' {
        match chars_to_number(name) {
            Number::Int(k) => Some(k),
            _ => None,
        }
    } else {
        None
    }
}

/// Whether a name is `length`.
fn is_length_name(name: &Vec<char>) -> (r: bool)
    ensures
        r == (name@ == length_name()),
{
    let l = vec!['l', 'e', 'n', 'g', 't', 'h'];
    assert(l@ =~= length_name());
    crate::value::chars_eq(name, &l)
}

/// The value an object itself holds under `name`.
fn own_get(version: u8, o: &ScriptObject, name: &Vec<char>) -> (r: Option<Value>)
    ensures
        r is Some <==> own_value(version, o@, name@) is Some,
        r is Some ==> r.unwrap()@ == own_value(version, o@, name@).unwrap(),
{
    match &o.elements {
        Some(e) => {
            if is_length_name(name) {
                if e.len() as u64 > i64::MAX as u64 {
                    return Some(Value::Num(crate::value::Number::Infinity));
                }
                return Some(Value::Num(crate::value::Number::Int(e.len() as i64)));
            }
            match element_index_of(name) {
                Some(k) => {
                    if 0 <= k && (k as u64) < (e.len() as u64) {
                        return Some(e[k as usize].copy());
                    }
                },
                None => {},
            }
        },
        None => {},
    }
    match find_property(version, &o.props, name) {
        Some(i) => Some(o.props[i].value.copy()),
        None => None,
    }
}

/// All script objects, addressed by index.
pub struct ObjectStore {
    objects: Vec<ScriptObject>,
}

impl ObjectStore {
    /// The objects, by index.
    pub closed spec fn model(&self) -> Seq<ObjectModel> {
        self.objects@.map_values(|o: ScriptObject| o@)
    }

    /// A store with no objects.
    pub fn new() -> (r: Self)
        ensures
            r.model() == Seq::<ObjectModel>::empty(),
    {
        let r = ObjectStore { objects: Vec::new() };
        assert(r.model() =~= Seq::<ObjectModel>::empty());
        r
    }

    /// How many objects there are.
    pub fn len(&self) -> (r: usize)
        ensures
            r == self.model().len(),
    {
        self.objects.len()
    }

    /// Add a plain object with the given prototype; its index is returned.
    pub fn create_object(&mut self, proto: Option<usize>) -> (r: usize)
        requires
            old(self).model().len() < usize::MAX,
        ensures
            r == old(self).model().len(),
            final(self).model() == old(self).model().push(
                ObjectModel { props: seq![], proto, elements: None },
            ),
    {
        let r = self.objects.len();
        let o = ScriptObject { props: Vec::new(), proto, elements: None };
        assert(o@.props =~= Seq::<PropertyModel>::empty());
        self.objects.push(o);
        assert(self.model() =~= old(self).model().push(
            ObjectModel { props: seq![], proto, elements: None },
        ));
        r
    }

    /// Add an array with the given prototype and elements; its index is returned.
    pub fn create_array(&mut self, proto: Option<usize>, items: Vec<Value>) -> (r: usize)
        requires
            old(self).model().len() < usize::MAX,
        ensures
            r == old(self).model().len(),
            final(self).model() == old(self).model().push(
                ObjectModel { props: seq![], proto, elements: Some(values_model(items@)) },
            ),
    {
        let r = self.objects.len();
        let o = ScriptObject { props: Vec::new(), proto, elements: Some(items) };
        assert(o@.props =~= Seq::<PropertyModel>::empty());
        self.objects.push(o);
        assert(self.model() =~= old(self).model().push(
            ObjectModel { props: seq![], proto, elements: Some(values_model(items@)) },
        ));
        r
    }

    /// Read `name` from object `obj`, along its prototype chain.
    pub fn get(&self, version: u8, obj: usize, name: &Vec<char>) -> (r: Value)
        ensures
            r@ == lookup(version, self.model(), obj as int, name@, MAX_PROTO_HOPS as nat),
    {
        let ghost m = self.model();
        let mut cur = obj;
        let mut hops: usize = MAX_PROTO_HOPS;
        loop
            invariant
                m == self.model(),
                lookup(version, m, obj as int, name@, MAX_PROTO_HOPS as nat) == lookup(
                    version,
                    m,
                    cur as int,
                    name@,
                    hops as nat,
                ),
            decreases hops,
        {
            if cur >= self.objects.len() {
                return Value::Undefined;
            }
            assert(m[cur as int] == self.objects@[cur as int]@);
            match own_get(version, &self.objects[cur], name) {
                Some(v) => {
                    return v;
                },
                None => {},
            }
            match self.objects[cur].proto {
                Some(p) => {
                    if hops == 0 {
                        return Value::Undefined;
                    }
                    cur = p;
                    hops = hops - 1;
                },
                None => {
                    return Value::Undefined;
                },
            }
        }
    }
}

/// Assign `v` to `name` on `o`, as `assign` says.
fn assign_in(version: u8, o: &mut ScriptObject, name: &Vec<char>, v: Value)
    ensures
        final(o)@ == assign(version, old(o)@, name@, v@),
{
    let length = match &o.elements {
        Some(e) => Some(e.len()),
        None => None,
    };
    match length {
        Some(n) => {
            if is_length_name(name) {
                return;
            }
            match element_index_of(name) {
                Some(k) => {
                    if 0 <= k && (k as u64) < (n as u64) {
                        let ghost vm = v@;
                        match &mut o.elements {
                            Some(e) => {
                                let ghost before = e@;
                                e.set(k as usize, v);
                                assert(values_model(e@) =~= values_model(before).update(k as int, vm));
                            },
                            None => {},
                        }
                        return;
                    }
                },
                None => {},
            }
        },
        None => {},
    }
    match find_property(version, &o.props, name) {
        Some(i) => {
            if o.props[i].readonly {
                return;
            }
            let ghost before = o.props@;
            let p = Property {
                name: copy_chars(&o.props[i].name),
                value: v,
                enumerable: o.props[i].enumerable,
                readonly: false,
            };
            o.props.set(i, p);
            assert(o.props@.map_values(|p: Property| p@) =~= before.map_values(|p: Property| p@).update(
                i as int,
                p@,
            ));
        },
        None => {
            let ghost before = o.props@;
            let p = Property { name: copy_chars(name), value: v, enumerable: true, readonly: false };
            o.props.push(p);
            assert(o.props@.map_values(|p: Property| p@) =~= before.map_values(|p: Property| p@).push(
                p@,
            ));
        },
    }
}


/// The object after defining `name` with the given value and flags: the
/// property that `name` denotes takes them, else a new property is added.
pub open spec fn defined(
    version: u8,
    o: ObjectModel,
    name: Seq<char>,
    v: ValueModel,
    enumerable: bool,
    readonly: bool,
) -> ObjectModel {
    match find_prop(version, o.props, name) {
        Some(i) => ObjectModel {
            props: o.props.update(i, PropertyModel { name: o.props[i].name, value: v, enumerable, readonly }),
            ..o
        },
        None => ObjectModel {
            props: o.props.push(PropertyModel { name, value: v, enumerable, readonly }),
            ..o
        },
    }
}

/// The store after replacing object `obj` by `f` of it, where it exists.
pub open spec fn update_object(objs: Seq<ObjectModel>, obj: int, o: ObjectModel) -> Seq<ObjectModel> {
    if 0 <= obj < objs.len() {
        objs.update(obj, o)
    } else {
        objs
    }
}

impl ObjectStore {
    /// Take object `obj` out, leaving an empty object in its place.
    fn take_object(&mut self, obj: usize) -> (r: ScriptObject)
        requires
            obj < old(self).model().len(),
        ensures
            r@ == old(self).model()[obj as int],
            final(self).objects@.len() == old(self).objects@.len(),
            forall|j: int| 0 <= j < old(self).objects@.len() && j != obj ==> final(self).objects@[j] == old(self).objects@[j],
    {
        let mut o = ScriptObject { props: Vec::new(), proto: None, elements: None };
        self.objects.set_and_swap(obj, &mut o);
        o
    }

    /// Put object `obj` back after `take_object`.
    fn put_object(&mut self, obj: usize, o: ScriptObject, ghost_before: Ghost<Seq<ObjectModel>>)
        requires
            obj < old(self).objects@.len(),
            old(self).objects@.len() == ghost_before@.len(),
            forall|j: int| 0 <= j < ghost_before@.len() && j != obj ==> old(self).objects@[j]@ == ghost_before@[j],
        ensures
            final(self).model() == ghost_before@.update(obj as int, o@),
    {
        self.objects.set(obj, o);
        assert(self.model() =~= ghost_before@.update(obj as int, o@));
    }

    /// Assign `value` to `name` on object `obj`, as `assign` says; nothing
    /// changes where `obj` is not an object.
    pub fn set(&mut self, version: u8, obj: usize, name: &Vec<char>, value: Value)
        ensures
            final(self).model() == update_object(
                old(self).model(),
                obj as int,
                assign(version, old(self).model()[obj as int], name@, value@),
            ),
    {
        if obj >= self.objects.len() {
            return;
        }
        let ghost before = self.model();
        let mut o = self.take_object(obj);
        assign_in(version, &mut o, name, value);
        self.put_object(obj, o, Ghost(before));
    }

    /// Define `name` on object `obj` with the given value and flags, as
    /// `defined` says; nothing changes where `obj` is not an object.
    pub fn define_property(
        &mut self,
        version: u8,
        obj: usize,
        name: &Vec<char>,
        value: Value,
        enumerable: bool,
        readonly: bool,
    )
        ensures
            final(self).model() == update_object(
                old(self).model(),
                obj as int,
                defined(version, old(self).model()[obj as int], name@, value@, enumerable, readonly),
            ),
    {
        if obj >= self.objects.len() {
            return;
        }
        let ghost before = self.model();
        let mut o = self.take_object(obj);
        let ghost om = o@;
        match find_property(version, &o.props, name) {
            Some(i) => {
                let ghost ps = o.props@;
                let p = Property { name: copy_chars(&o.props[i].name), value, enumerable, readonly };
                o.props.set(i, p);
                assert(o.props@.map_values(|p: Property| p@) =~= ps.map_values(|p: Property| p@).update(
                    i as int,
                    p@,
                ));
            },
            None => {
                let ghost ps = o.props@;
                let p = Property { name: copy_chars(name), value, enumerable, readonly };
                o.props.push(p);
                assert(o.props@.map_values(|p: Property| p@) =~= ps.map_values(|p: Property| p@).push(p@));
            },
        }
        assert(o@ == defined(version, om, name@, value@, enumerable, readonly));
        self.put_object(obj, o, Ghost(before));
    }

    /// The names `for..in` lists for object `obj`, as `keys` says; none where
    /// `obj` is not an object.
    pub fn enumerate(&self, obj: usize) -> (r: Vec<Vec<char>>)
        ensures
            obj < self.model().len() ==> r@.map_values(|v: Vec<char>| v@) == keys(self.model()[obj as int]),
            obj >= self.model().len() ==> r@.len() == 0,
    {
        let mut r: Vec<Vec<char>> = Vec::new();
        if obj >= self.objects.len() {
            return r;
        }
        let o = &self.objects[obj];
        assert(self.model()[obj as int] == o@);
        let n: usize = match &o.elements {
            Some(e) => e.len(),
            None => 0,
        };
        let mut i: usize = 0;
        while i < n
            invariant
                i <= n,
                r@.map_values(|v: Vec<char>| v@) == index_names(i as nat),
            decreases n - i,
        {
            let ghost before = r@;
            r.push(nat_to_chars(i as u64));
            assert(r@.map_values(|v: Vec<char>| v@) =~= before.map_values(|v: Vec<char>| v@).push(
                nat_digits(i as nat),
            ));
            assert(r@.map_values(|v: Vec<char>| v@) =~= index_names((i + 1) as nat));
            i += 1;
        }
        let ghost base = r@.map_values(|v: Vec<char>| v@);
        let ghost pm = o.props@.map_values(|p: Property| p@);
        let mut j: usize = 0;
        while j < o.props.len()
            invariant
                j <= o.props.len(),
                pm == o.props@.map_values(|p: Property| p@),
                r@.map_values(|v: Vec<char>| v@) == base + enumerable_names(pm.take(j as int)),
            decreases o.props.len() - j,
        {
            assert(pm.take(j + 1).drop_last() =~= pm.take(j as int));
            let ghost before = r@;
            if o.props[j].enumerable {
                r.push(copy_chars(&o.props[j].name));
                assert(r@.map_values(|v: Vec<char>| v@) =~= before.map_values(|v: Vec<char>| v@).push(
                    pm[j as int].name,
                ));
            }
            j += 1;
        }
        assert(pm.take(j as int) =~= pm);
        proof {
            if o.elements is None {
                assert(base =~= Seq::<Seq<char>>::empty());
            }
        }
        assert(r@.map_values(|v: Vec<char>| v@) =~= keys(o@));
        r
    }
}


/// Whether object `obj` exists and is an array.
pub open spec fn is_array(objs: Seq<ObjectModel>, obj: int) -> bool {
    0 <= obj < objs.len() && objs[obj].elements is Some
}

/// The elements of array `obj`.
pub open spec fn elements_of(objs: Seq<ObjectModel>, obj: int) -> Seq<ValueModel> {
    objs[obj].elements.unwrap_or(seq![])
}

impl ObjectStore {
    /// The number of elements of array `obj`, or `None` where it is no array.
    pub fn array_length(&self, obj: usize) -> (r: Option<usize>)
        ensures
            r is Some <==> is_array(self.model(), obj as int),
            r is Some ==> r.unwrap() == elements_of(self.model(), obj as int).len(),
    {
        if obj >= self.objects.len() {
            return None;
        }
        assert(self.model()[obj as int] == self.objects@[obj as int]@);
        match &self.objects[obj].elements {
            Some(e) => Some(e.len()),
            None => None,
        }
    }

    /// Append `v` to array `obj`; nothing changes where it is no array.
    pub fn array_push(&mut self, obj: usize, v: Value)
        ensures
            is_array(old(self).model(), obj as int) ==> final(self).model() == old(self).model().update(
                obj as int,
                ObjectModel {
                    elements: Some(elements_of(old(self).model(), obj as int).push(v@)),
                    ..old(self).model()[obj as int]
                },
            ),
            !is_array(old(self).model(), obj as int) ==> final(self).model() == old(self).model(),
    {
        if obj >= self.objects.len() {
            return;
        }
        let ghost before = self.model();
        let mut o = self.take_object(obj);
        let ghost om = o@;
        let ghost vm = v@;
        match &mut o.elements {
            Some(e) => {
                let ghost es = e@;
                e.push(v);
                assert(values_model(e@) =~= values_model(es).push(vm));
            },
            None => {},
        }
        self.put_object(obj, o, Ghost(before));
        proof {
            if om.elements is None {
                assert(before.update(obj as int, om) =~= before);
            }
        }
    }

    /// Remove up to `count` elements of array `obj` from `start` and insert
    /// `items` in their place, as `spliced` says; the removed elements are
    /// returned. Nothing changes where `obj` is no array, and `None` is returned.
    pub fn array_splice(&mut self, obj: usize, start: usize, count: usize, items: &Vec<Value>) -> (r:
        Option<Vec<Value>>)
        ensures
            r is Some <==> is_array(old(self).model(), obj as int),
            is_array(old(self).model(), obj as int) ==> {
                let e = elements_of(old(self).model(), obj as int);
                let s = clamp(start as int, e.len() as int);
                let t = clamp(s + count, e.len() as int);
                &&& final(self).model() == old(self).model().update(
                    obj as int,
                    ObjectModel {
                        elements: Some(spliced(e, start as int, count as int, values_model(items@))),
                        ..old(self).model()[obj as int]
                    },
                )
                &&& values_model(r.unwrap()@) == e.subrange(s, t)
            },
            !is_array(old(self).model(), obj as int) ==> final(self).model() == old(self).model(),
    {
        if obj >= self.objects.len() {
            return None;
        }
        assert(self.model()[obj as int] == self.objects@[obj as int]@);
        let n = match &self.objects[obj].elements {
            Some(e) => e.len(),
            None => {
                return None;
            },
        };
        let ghost before = self.model();
        let mut o = self.take_object(obj);
        let ghost om = o@;
        let s: usize = if start > n { n } else { start };
        let t: usize = if count > n - s { n } else { s + count };
        let mut fresh: Vec<Value> = Vec::new();
        let mut removed: Vec<Value> = Vec::new();
        match &o.elements {
            Some(e) => {
                let ghost em = values_model(e@);
                copy_range(&mut fresh, e, 0, s);
                copy_range(&mut removed, e, s, t);
                let ghost f1 = values_model(fresh@);
                copy_range(&mut fresh, items, 0, items.len());
                let ghost f2 = values_model(fresh@);
                copy_range(&mut fresh, e, t, n);
                assert(values_model(items@).subrange(0, items@.len() as int) =~= values_model(items@));
                assert(values_model(removed@) =~= em.subrange(s as int, t as int));
                assert(em.subrange(0, s as int) =~= em.take(s as int));
                assert(em.subrange(t as int, n as int) =~= em.skip(t as int));
                assert(values_model(fresh@) =~= spliced(em, start as int, count as int, values_model(items@)));
            },
            None => {},
        }
        o.elements = Some(fresh);
        self.put_object(obj, o, Ghost(before));
        Some(removed)
    }

    /// A new array with the elements of array `obj` followed by `items`, and the
    /// same prototype; its index is returned, or `None` where `obj` is no array.
    pub fn array_concat(&mut self, obj: usize, items: &Vec<Value>) -> (r: Option<usize>)
        requires
            old(self).model().len() < usize::MAX,
        ensures
            r is Some <==> is_array(old(self).model(), obj as int),
            r is Some ==> r.unwrap() == old(self).model().len() && final(self).model() == old(self).model().push(
                ObjectModel {
                    props: seq![],
                    proto: old(self).model()[obj as int].proto,
                    elements: Some(elements_of(old(self).model(), obj as int) + values_model(items@)),
                },
            ),
            r is None ==> final(self).model() == old(self).model(),
    {
        if obj >= self.objects.len() {
            return None;
        }
        assert(self.model()[obj as int] == self.objects@[obj as int]@);
        let mut fresh: Vec<Value> = Vec::new();
        match &self.objects[obj].elements {
            Some(e) => {
                copy_range(&mut fresh, e, 0, e.len());
                copy_range(&mut fresh, items, 0, items.len());
                assert(values_model(e@).subrange(0, e@.len() as int) =~= values_model(e@));
                assert(values_model(items@).subrange(0, items@.len() as int) =~= values_model(items@));
                assert(values_model(fresh@) =~= values_model(e@) + values_model(items@));
            },
            None => {
                return None;
            },
        }
        let proto = self.objects[obj].proto;
        Some(self.create_array(proto, fresh))
    }

    /// A new array with elements `start..end` of array `obj` (both clamped to its
    /// length) and the same prototype; its index is returned, or `None` where
    /// `obj` is no array.
    pub fn array_slice(&mut self, obj: usize, start: usize, end: usize) -> (r: Option<usize>)
        requires
            old(self).model().len() < usize::MAX,
        ensures
            r is Some <==> is_array(old(self).model(), obj as int),
            r is Some ==> {
                let e = elements_of(old(self).model(), obj as int);
                let s = clamp(start as int, e.len() as int);
                let t = clamp(end as int, e.len() as int);
                &&& r.unwrap() == old(self).model().len()
                &&& final(self).model() == old(self).model().push(
                    ObjectModel {
                        props: seq![],
                        proto: old(self).model()[obj as int].proto,
                        elements: Some(if s <= t { e.subrange(s, t) } else { seq![] }),
                    },
                )
            },
            r is None ==> final(self).model() == old(self).model(),
    {
        if obj >= self.objects.len() {
            return None;
        }
        assert(self.model()[obj as int] == self.objects@[obj as int]@);
        let mut fresh: Vec<Value> = Vec::new();
        match &self.objects[obj].elements {
            Some(e) => {
                let n = e.len();
                let s: usize = if start > n { n } else { start };
                let t: usize = if end > n { n } else { end };
                if s <= t {
                    copy_range(&mut fresh, e, s, t);
                    assert(values_model(fresh@) =~= values_model(e@).subrange(s as int, t as int));
                } else {
                    assert(values_model(fresh@) =~= Seq::<ValueModel>::empty());
                }
            },
            None => {
                return None;
            },
        }
        let proto = self.objects[obj].proto;
        Some(self.create_array(proto, fresh))
    }
}

/// `for..in` over an array lists the decimal names of its indices `0..length`
/// ascending first, then its enumerable own properties in insertion order;
/// splicing changes only the elements, so the listing after a splice follows the
/// new length and keeps the custom properties.
pub proof fn lemma_array_keys_order(o: ObjectModel, start: int, count: int, items: Seq<ValueModel>)
    requires
        o.elements is Some,
    ensures
        keys(o).len() == o.elements.unwrap().len() + enumerable_names(o.props).len(),
        forall|i: int| 0 <= i < o.elements.unwrap().len() ==> #[trigger] keys(o)[i] == nat_digits(i as nat),
        keys(o).skip(o.elements.unwrap().len() as int) == enumerable_names(o.props),
        ({
            let p = ObjectModel {
                elements: Some(spliced(o.elements.unwrap(), start, count, items)),
                ..o
            };
            &&& keys(p).len() == p.elements.unwrap().len() + enumerable_names(o.props).len()
            &&& forall|i: int| 0 <= i < p.elements.unwrap().len() ==> #[trigger] keys(p)[i] == nat_digits(i as nat)
            &&& keys(p).skip(p.elements.unwrap().len() as int) == enumerable_names(o.props)
        }),
{
    let n = o.elements.unwrap().len();
    assert(keys(o).skip(n as int) =~= enumerable_names(o.props));
    let p = ObjectModel { elements: Some(spliced(o.elements.unwrap(), start, count, items)), ..o };
    let m = p.elements.unwrap().len();
    assert(keys(p).skip(m as int) =~= enumerable_names(o.props));
}


/// The enumerable properties as (name, text of value) pairs, in insertion order.
pub open spec fn enumerable_pairs(version: u8, props: Seq<PropertyModel>) -> Seq<(Seq<char>, Seq<char>)>
    decreases props.len(),
{
    if props.len() == 0 {
        seq![]
    } else {
        let rest = enumerable_pairs(version, props.drop_last());
        if props.last().enumerable {
            rest.push((props.last().name, value_text(version, props.last().value)))
        } else {
            rest
        }
    }
}

/// The variables object `obj` sends: its enumerable own properties with the
/// texts of their values; none where `obj` is not an object.
pub open spec fn sent_variables(version: u8, objs: Seq<ObjectModel>, obj: int) -> Seq<(Seq<char>, Seq<char>)> {
    if 0 <= obj < objs.len() {
        enumerable_pairs(version, objs[obj].props)
    } else {
        seq![]
    }
}

impl ObjectStore {
    /// The variables object `obj` sends, as `sent_variables` says.
    pub fn variables(&self, version: u8, obj: usize) -> (r: Vec<(Vec<char>, Vec<char>)>)
        ensures
            pairs_model(r@) == sent_variables(version, self.model(), obj as int),
    {
        let mut r: Vec<(Vec<char>, Vec<char>)> = Vec::new();
        if obj >= self.objects.len() {
            assert(pairs_model(r@) =~= Seq::<(Seq<char>, Seq<char>)>::empty());
            return r;
        }
        let o = &self.objects[obj];
        assert(self.model()[obj as int] == o@);
        let ghost pm = o.props@.map_values(|p: Property| p@);
        let mut j: usize = 0;
        assert(pairs_model(r@) =~= enumerable_pairs(version, pm.take(0)));
        while j < o.props.len()
            invariant
                j <= o.props.len(),
                pm == o.props@.map_values(|p: Property| p@),
                pairs_model(r@) == enumerable_pairs(version, pm.take(j as int)),
            decreases o.props.len() - j,
        {
            assert(pm.take(j + 1).drop_last() =~= pm.take(j as int));
            let ghost before = r@;
            if o.props[j].enumerable {
                let pair = (copy_chars(&o.props[j].name), to_text(version, &o.props[j].value));
                let ghost pmod = (pair.0@, pair.1@);
                r.push(pair);
                assert(pairs_model(r@) =~= pairs_model(before).push(pmod));
            }
            j += 1;
        }
        assert(pm.take(j as int) =~= pm);
        r
    }
}

} // verus!
