use ruffle_core::form::{encode_variables, parse_variables};
use ruffle_core::navigator::{NavigationMethod, SendVarsMethod};
use ruffle_core::movie::{Action, Character, Frame, Movie, Tag};
use ruffle_core::player::Player;
use ruffle_core::value::Value;

fn chars(s: &str) -> Vec<char> {
    s.chars().collect()
}

fn text(v: &[char]) -> String {
    v.iter().collect()
}

fn pairs(s: &str) -> Vec<(String, String)> {
    parse_variables(&chars(s)).iter().map(|(n, v)| (text(n), text(v))).collect()
}

#[test]
fn variable_sets_decode() {
    assert_eq!(
        pairs("a=1&b=two+words&c"),
        vec![("a".into(), "1".into()), ("b".into(), "two words".into()), ("c".into(), "".into())]
    );
    assert_eq!(pairs(""), vec![]);
    assert_eq!(pairs("&&=x&k=v=w"), vec![("k".to_string(), "v=w".to_string())]);
}

#[test]
fn fetched_text_sets_variables() {
    let movie = Movie {
        version: 7,
        functions: vec![],
        characters: vec![Character {
            is_clip: true,
            frames: vec![frame_with(vec![
                Action::LoadVariables { url: chars("data.txt"), callback: 0, method: SendVarsMethod::Omit },
                Action::Stop,
            ])],
            init_actions: vec![],
        }],
        code: vec![vec![
            Action::Push(Value::Str(chars("name"))),
            Action::GetVariable,
            Action::Trace,
            Action::Push(Value::Str(chars("score"))),
            Action::GetVariable,
            Action::Trace,
        ]],
    };
    let mut p = Player::new(movie);
    p.tick().unwrap();
    let reqs = p.stage.take_requests();
    assert_eq!(reqs.len(), 1);
    p.stage.complete_load(reqs[0].load, Some(&chars("name=Ann+Lee&score=12")));
    p.tick().unwrap();
    let lines: Vec<String> = p.trace().iter().map(|l| text(l)).collect();
    assert_eq!(lines, vec!["Ann Lee", "12"]);
}

fn frame_with(acts: Vec<Action>) -> Frame {
    Frame { tags: vec![Tag::DoAction(acts), Tag::ShowFrame] }
}

#[test]
fn variable_sets_encode_and_decode_back() {
    let set = vec![(chars("a b"), chars("x=y z")), (chars("k"), chars(""))];
    let encoded = encode_variables(&set);
    assert_eq!(text(&encoded), "a+b=x=y+z&k=");
    assert_eq!(parse_variables(&encoded), set);
    assert!(encode_variables(&vec![]).is_empty());
}

fn sending_movie(method: SendVarsMethod) -> Movie {
    Movie {
        version: 7,
        functions: vec![],
        characters: vec![Character {
            is_clip: true,
            frames: vec![frame_with(vec![
                Action::Push(Value::Str(chars("user"))),
                Action::Push(Value::Str(chars("Ann Lee"))),
                Action::SetVariable,
                Action::Push(Value::Str(chars("n"))),
                Action::Push(Value::Num(ruffle_core::value::Number::Int(3))),
                Action::SetVariable,
                Action::LoadVariables { url: chars("send.cgi"), callback: 0, method },
                Action::Stop,
            ])],
            init_actions: vec![],
        }],
        code: vec![vec![]],
    }
}

#[test]
fn variables_go_along_by_get_or_post() {
    let mut p = Player::new(sending_movie(SendVarsMethod::Get));
    p.tick().unwrap();
    let reqs = p.stage.take_requests();
    assert_eq!(text(&reqs[0].url), "send.cgi?user=Ann+Lee&n=3");
    assert_eq!(reqs[0].method, Some(NavigationMethod::GET));
    assert!(reqs[0].body.is_none());

    let mut p = Player::new(sending_movie(SendVarsMethod::Post));
    p.tick().unwrap();
    let reqs = p.stage.take_requests();
    assert_eq!(text(&reqs[0].url), "send.cgi");
    assert_eq!(reqs[0].method, Some(NavigationMethod::POST));
    assert_eq!(text(reqs[0].body.as_ref().unwrap()), "user=Ann+Lee&n=3");

    let mut p = Player::new(sending_movie(SendVarsMethod::Omit));
    p.tick().unwrap();
    let reqs = p.stage.take_requests();
    assert_eq!(text(&reqs[0].url), "send.cgi");
    assert_eq!(reqs[0].method, None);
}
