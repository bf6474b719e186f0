use ruffle_core::movie::{Action, Character, Frame, Function, Movie, Preload, Tag};
use ruffle_core::player::{FatalError, Player};
use ruffle_core::navigator::SendVarsMethod;
use ruffle_core::stage::{AudioCommand, Diagnostic, InputState};
use ruffle_core::value::{Number, Value};

fn chars(s: &str) -> Vec<char> {
    s.chars().collect()
}

fn text(v: &[char]) -> String {
    v.iter().collect()
}

fn lines(p: &Player) -> Vec<String> {
    p.trace().iter().map(|l| text(l)).collect()
}

fn say(s: &str) -> Vec<Action> {
    vec![Action::Push(Value::Str(chars(s))), Action::Trace]
}

fn shape() -> Character {
    Character { is_clip: false, frames: vec![], init_actions: vec![] }
}

fn root(frames: Vec<Frame>) -> Character {
    Character { is_clip: true, frames, init_actions: vec![] }
}

fn place(depth: i32, character: usize, name: &str) -> Tag {
    Tag::PlaceObject { depth, character, name: chars(name) }
}

fn frame(tags: Vec<Tag>) -> Frame {
    Frame { tags }
}

fn child_of(p: &Player, parent: usize, depth: i32) -> Option<usize> {
    p.stage.objs[parent].children.iter().find(|c| c.0 == depth).map(|c| c.1)
}

#[test]
fn one_frame_trace_infinity_and_concatenation() {
    let acts = vec![
        Action::Push(Value::Num(Number::Int(1))),
        Action::Push(Value::Num(Number::Int(0))),
        Action::Divide,
        Action::Trace,
        Action::Push(Value::Str(chars("5"))),
        Action::Push(Value::Num(Number::Int(3))),
        Action::Add,
        Action::Trace,
    ];
    let movie = Movie {
        version: 6,
        functions: vec![],
        characters: vec![root(vec![frame(vec![Tag::DoAction(acts), Tag::ShowFrame])])],
        code: vec![],
    };
    let mut p = Player::new(movie);
    p.tick().unwrap();
    assert_eq!(lines(&p), vec!["Infinity", "53"]);
    p.tick().unwrap();
    assert_eq!(lines(&p), vec!["Infinity", "53"]);
}

#[test]
fn goto_and_stop_skips_intermediate_actions() {
    let mut clip_frames = Vec::new();
    for k in 1..=5 {
        let mut tags = Vec::new();
        if k > 1 {
            tags.push(Tag::RemoveObject { depth: 1 });
        }
        tags.push(place(1, 2, &format!("child{}", k)));
        let mut acts = say(&format!("frame {}", k));
        if k == 1 {
            acts.push(Action::GotoAndStop(5));
        }
        tags.push(Tag::DoAction(acts));
        tags.push(Tag::ShowFrame);
        clip_frames.push(frame(tags));
    }
    let movie = Movie {
        version: 7,
        functions: vec![],
        characters: vec![
            root(vec![frame(vec![place(1, 1, "clip"), Tag::ShowFrame])]),
            Character { is_clip: true, frames: clip_frames, init_actions: vec![] },
            shape(),
        ],
        code: vec![],
    };
    let mut p = Player::new(movie);
    p.tick().unwrap();
    assert_eq!(lines(&p), vec!["frame 1", "frame 5"]);
    let clip = child_of(&p, 0, 1).unwrap();
    assert_eq!(p.stage.objs[clip].current_frame, 5);
    assert!(!p.stage.objs[clip].playing);
    assert_eq!(p.stage.objs[clip].children.len(), 1);
    let child = p.stage.objs[clip].children[0].1;
    assert_eq!(text(&p.stage.objs[child].name), "child5");
    p.tick().unwrap();
    assert_eq!(lines(&p), vec!["frame 1", "frame 5"]);
}

#[test]
fn init_actions_once_per_instance() {
    let movie = Movie {
        version: 7,
        functions: vec![],
        characters: vec![
            root(vec![
                frame(vec![place(1, 1, "a"), Tag::ShowFrame]),
                frame(vec![Tag::DoAction(vec![Action::Stop]), Tag::ShowFrame]),
                frame(vec![Tag::ShowFrame]),
            ]),
            Character {
                is_clip: true,
                frames: vec![frame(vec![Tag::DoAction(say("frame")), Tag::ShowFrame])],
                init_actions: say("init"),
            },
        ],
        code: vec![],
    };
    let mut p = Player::new(movie);
    p.tick().unwrap();
    assert_eq!(lines(&p), vec!["init", "frame"]);
    p.tick().unwrap();
    assert_eq!(lines(&p), vec!["init", "frame"]);
    let a = child_of(&p, 0, 1).unwrap();
    p.stage.detach(a);
    assert!(child_of(&p, 0, 1).is_none());
    p.stage.attach(a, 0, 4);
    assert_eq!(child_of(&p, 0, 4), Some(a));
    p.tick().unwrap();
    assert_eq!(lines(&p), vec!["init", "frame"]);
    let movie_ref = &p.movie;
    p.stage.place(movie_ref, 0, 7, 1, &chars("b"));
    p.tick().unwrap();
    assert_eq!(lines(&p), vec!["init", "frame", "init", "frame"]);
}

#[test]
fn children_act_after_parent_structure_settles() {
    let movie = Movie {
        version: 7,
        functions: vec![],
        characters: vec![
            root(vec![frame(vec![
                Tag::DoAction(say("root")),
                place(1, 1, "a"),
                place(2, 1, "b"),
                Tag::ShowFrame,
            ])]),
            Character {
                is_clip: true,
                frames: vec![frame(vec![
                    Tag::DoAction(vec![
                        Action::Push(Value::Str(chars("n"))),
                        Action::GetVariable,
                        Action::Trace,
                    ]),
                    Tag::ShowFrame,
                ])],
                init_actions: vec![],
            },
        ],
        code: vec![],
    };
    let mut p = Player::new(movie);
    p.tick().unwrap();
    assert_eq!(lines(&p), vec!["root", "undefined", "undefined"]);
}

#[test]
fn variables_and_script_errors() {
    let acts = vec![
        Action::Push(Value::Str(chars("Count"))),
        Action::Push(Value::Num(Number::Int(4))),
        Action::SetVariable,
        Action::Push(Value::Str(chars("count"))),
        Action::GetVariable,
        Action::Trace,
        Action::Add,
        Action::Push(Value::Str(chars("never"))),
        Action::Trace,
    ];
    let movie = Movie {
        version: 6,
        functions: vec![],
        characters: vec![root(vec![frame(vec![
            Tag::DoAction(acts),
            Tag::DoAction(say("next")),
            Tag::ShowFrame,
        ])])],
        code: vec![],
    };
    let mut p = Player::new(movie);
    p.tick().unwrap();
    assert_eq!(lines(&p), vec!["4", "next"]);
}

#[test]
fn looping_timeline_replays_frames() {
    let movie = Movie {
        version: 7,
        functions: vec![],
        characters: vec![root(vec![
            frame(vec![Tag::DoAction(say("one")), Tag::SetBackgroundColor(0xff0000), Tag::ShowFrame]),
            frame(vec![Tag::DoAction(say("two")), Tag::ShowFrame]),
        ])],
        code: vec![],
    };
    let mut p = Player::new(movie);
    p.run(5).unwrap();
    assert_eq!(lines(&p), vec!["one", "two", "one", "two", "one"]);
    assert_eq!(p.stage.background, 0xff0000);
}

#[test]
fn replay_is_identical() {
    let build = || Movie {
        version: 7,
        functions: vec![],
        characters: vec![
            root(vec![
                frame(vec![place(3, 1, "a"), place(1, 1, "b"), Tag::DoAction(say("r1")), Tag::ShowFrame]),
                frame(vec![Tag::RemoveObject { depth: 3 }, Tag::DoAction(say("r2")), Tag::ShowFrame]),
            ]),
            Character {
                is_clip: true,
                frames: vec![
                    frame(vec![Tag::DoAction(say("c1")), Tag::ShowFrame]),
                    frame(vec![Tag::DoAction(say("c2")), Tag::ShowFrame]),
                ],
                init_actions: say("i"),
            },
        ],
        code: vec![],
    };
    let mut a = Player::new(build());
    let mut b = Player::new(build());
    a.run(6).unwrap();
    b.run(6).unwrap();
    assert_eq!(lines(&a), lines(&b));
    assert!(lines(&a).len() > 6);
    let shape_a: Vec<(Option<usize>, i32, bool, usize)> =
        a.stage.objs.iter().map(|o| (o.parent, o.depth, o.removed, o.current_frame)).collect();
    let shape_b: Vec<(Option<usize>, i32, bool, usize)> =
        b.stage.objs.iter().map(|o| (o.parent, o.depth, o.removed, o.current_frame)).collect();
    assert_eq!(shape_a, shape_b);
    let kids_a: Vec<Vec<(i32, usize)>> = a.stage.objs.iter().map(|o| o.children.clone()).collect();
    let kids_b: Vec<Vec<(i32, usize)>> = b.stage.objs.iter().map(|o| o.children.clone()).collect();
    assert_eq!(kids_a, kids_b);
}

fn loading_movie() -> Movie {
    Movie {
        version: 7,
        functions: vec![],
        characters: vec![
            root(vec![
                frame(vec![place(1, 1, "loader"), Tag::ShowFrame]),
                frame(vec![Tag::ShowFrame]),
                frame(vec![Tag::RemoveObject { depth: 1 }, Tag::ShowFrame]),
                frame(vec![Tag::DoAction(vec![Action::Stop]), Tag::ShowFrame]),
            ]),
            Character {
                is_clip: true,
                frames: vec![frame(vec![
                    Tag::DoAction(vec![
                        Action::LoadVariables { url: chars("vars.txt"), callback: 0, method: SendVarsMethod::Omit },
                        Action::Stop,
                    ]),
                    Tag::ShowFrame,
                ])],
                init_actions: vec![],
            },
        ],
        code: vec![vec![
            Action::Push(Value::Str(chars("success"))),
            Action::GetVariable,
            Action::Trace,
            Action::Push(Value::Str(chars("greeting"))),
            Action::GetVariable,
            Action::Trace,
        ]],
    }
}

#[test]
fn load_completion_runs_on_next_tick() {
    let mut p = Player::new(loading_movie());
    p.tick().unwrap();
    let reqs = p.stage.take_requests();
    assert_eq!(reqs.len(), 1);
    assert_eq!(text(&reqs[0].url), "vars.txt");
    p.stage.resolve_load(reqs[0].load, Some(vec![(chars("greeting"), chars("hi"))]));
    assert!(lines(&p).is_empty());
    p.tick().unwrap();
    assert_eq!(lines(&p), vec!["true", "hi"]);
}

#[test]
fn failed_load_reports_failure() {
    let mut p = Player::new(loading_movie());
    p.tick().unwrap();
    let reqs = p.stage.take_requests();
    p.stage.resolve_load(reqs[0].load, None);
    p.tick().unwrap();
    assert_eq!(lines(&p), vec!["false", "undefined"]);
    p.stage.resolve_load(reqs[0].load, None);
    p.tick().unwrap();
    assert_eq!(lines(&p), vec!["false", "undefined"]);
}

#[test]
fn load_of_destroyed_target_is_discarded() {
    let mut p = Player::new(loading_movie());
    p.run(3).unwrap();
    let reqs = p.stage.take_requests();
    assert_eq!(reqs.len(), 1);
    let target = p.stage.loads[reqs[0].load].target;
    assert!(p.stage.is_destroyed(target));
    let objs_before = p.stage.objs.len();
    p.stage.resolve_load(reqs[0].load, Some(vec![(chars("greeting"), chars("hi"))]));
    assert!(!p.stage.loads[reqs[0].load].live);
    assert!(p.stage.next_tick.is_empty());
    p.run(2).unwrap();
    assert!(lines(&p).is_empty());
    assert_eq!(p.stage.objs.len(), objs_before);
}

#[test]
fn queued_goto_runs_at_next_tick() {
    let movie = Movie {
        version: 7,
        functions: vec![],
        characters: vec![root(vec![
            frame(vec![Tag::DoAction(vec![Action::Push(Value::Str(chars("one"))), Action::Trace, Action::Stop]), Tag::ShowFrame]),
            frame(vec![Tag::DoAction(say("two")), Tag::ShowFrame]),
            frame(vec![Tag::DoAction(say("three")), Tag::ShowFrame]),
        ])],
        code: vec![],
    };
    let mut p = Player::new(movie);
    p.tick().unwrap();
    p.stage.queue_goto(0, 3);
    p.tick().unwrap();
    assert_eq!(lines(&p), vec!["one", "three"]);
    assert_eq!(p.stage.objs[0].current_frame, 3);
}

fn no_preload() -> Preload {
    Preload { this: false, arguments: false, super_: false, root: false, parent: false, global: false }
}

fn call_movie(functions: Vec<Function>, acts: Vec<Action>) -> Movie {
    Movie {
        version: 7,
        functions,
        characters: vec![root(vec![frame(vec![
            Tag::DoAction(acts),
            Tag::DoAction(say("after")),
            Tag::ShowFrame,
        ])])],
        code: vec![],
    }
}

#[test]
fn function_arguments_fill_registers_after_preloads() {
    let adder = Function {
        registers: 4,
        preload: Preload { this: true, ..no_preload() },
        body: vec![Action::PushRegister(2), Action::PushRegister(3), Action::Add, Action::Return],
    };
    let acts = vec![
        Action::Push(Value::Num(Number::Int(2))),
        Action::Push(Value::Num(Number::Int(40))),
        Action::CallFunction { function: 0, args: 2 },
        Action::Trace,
    ];
    let mut p = Player::new(call_movie(vec![adder], acts));
    p.tick().unwrap();
    assert_eq!(lines(&p), vec!["42", "after"]);
}

#[test]
fn preloaded_this_is_target_object() {
    let f = Function {
        registers: 3,
        preload: Preload { this: true, root: true, ..no_preload() },
        body: vec![Action::PushRegister(1), Action::PushRegister(2), Action::StrictEquals, Action::Trace],
    };
    let acts = vec![Action::CallFunction { function: 0, args: 0 }, Action::Trace];
    let mut p = Player::new(call_movie(vec![f], acts));
    p.tick().unwrap();
    assert_eq!(lines(&p), vec!["true", "undefined", "after"]);
}

#[test]
fn arguments_array_and_store_register() {
    let f = Function {
        registers: 2,
        preload: Preload { arguments: true, ..no_preload() },
        body: vec![
            Action::Push(Value::Str(chars("x"))),
            Action::StoreRegister(0),
            Action::Trace,
            Action::PushRegister(0),
            Action::Return,
        ],
    };
    let acts = vec![
        Action::Push(Value::Num(Number::Int(5))),
        Action::CallFunction { function: 0, args: 1 },
        Action::Trace,
    ];
    let mut p = Player::new(call_movie(vec![f], acts));
    let before = p.stage.store.len();
    p.tick().unwrap();
    assert_eq!(lines(&p), vec!["x", "x", "after"]);
    assert_eq!(p.stage.store.len(), before + 1);
    assert_eq!(p.stage.store.array_length(before), Some(1));
}

#[test]
fn runaway_recursion_aborts_only_its_action_list() {
    let f = Function {
        registers: 0,
        preload: no_preload(),
        body: vec![Action::CallFunction { function: 0, args: 0 }],
    };
    let acts = vec![
        Action::Push(Value::Str(chars("before"))),
        Action::Trace,
        Action::CallFunction { function: 0, args: 0 },
        Action::Push(Value::Str(chars("unreached"))),
        Action::Trace,
    ];
    let mut p = Player::new(call_movie(vec![f], acts));
    p.tick().unwrap();
    assert_eq!(lines(&p), vec!["before", "after"]);
}

#[test]
fn bad_register_and_missing_function_abort() {
    let f = Function { registers: 1, preload: no_preload(), body: vec![Action::PushRegister(1)] };
    let mut p = Player::new(call_movie(vec![f], vec![Action::CallFunction { function: 0, args: 0 }, Action::Trace]));
    p.tick().unwrap();
    assert_eq!(lines(&p), vec!["after"]);
    let mut q = Player::new(call_movie(vec![], vec![Action::CallFunction { function: 3, args: 0 }, Action::Trace]));
    q.tick().unwrap();
    assert_eq!(lines(&q), vec!["after"]);
}

#[test]
fn draw_order_is_depth_first_by_depth() {
    let movie = Movie {
        version: 7,
        functions: vec![],
        characters: vec![
            root(vec![frame(vec![place(5, 1, "late"), place(2, 1, "early"), place(3, 2, "dot"), Tag::ShowFrame])]),
            Character { is_clip: true, frames: vec![frame(vec![place(1, 2, "inner"), Tag::ShowFrame])], init_actions: vec![] },
            shape(),
        ],
        code: vec![],
    };
    let mut p = Player::new(movie);
    p.tick().unwrap();
    let names: Vec<String> = p.stage.display_order().iter().map(|&id| text(&p.stage.objs[id].name)).collect();
    assert_eq!(names, vec!["", "early", "inner", "dot", "late", "inner"]);
    let late = child_of(&p, 0, 5).unwrap();
    p.stage.remove(0, 5);
    assert!(p.stage.is_destroyed(late));
    let names: Vec<String> = p.stage.display_order().iter().map(|&id| text(&p.stage.objs[id].name)).collect();
    assert_eq!(names, vec!["", "early", "inner", "dot"]);
    let early = child_of(&p, 0, 2).unwrap();
    p.stage.objs[early].visible = false;
    let names: Vec<String> = p.stage.display_order().iter().map(|&id| text(&p.stage.objs[id].name)).collect();
    assert_eq!(names, vec!["", "dot"]);
}

#[test]
fn scripts_hide_their_clip() {
    let movie = Movie {
        version: 7,
        functions: vec![],
        characters: vec![
            root(vec![frame(vec![place(1, 1, "a"), Tag::ShowFrame])]),
            Character {
                is_clip: true,
                frames: vec![frame(vec![Tag::DoAction(vec![Action::SetVisible(false)]), Tag::ShowFrame])],
                init_actions: vec![],
            },
        ],
        code: vec![],
    };
    let mut p = Player::new(movie);
    assert_eq!(p.stage.display_order(), vec![0]);
    p.tick().unwrap();
    let a = child_of(&p, 0, 1).unwrap();
    assert!(!p.stage.objs[a].visible);
    assert_eq!(p.stage.display_order(), vec![0]);
}

#[test]
fn stage_without_root_fails_the_tick() {
    let movie = Movie {
        version: 7,
        functions: vec![],
        characters: vec![root(vec![frame(vec![Tag::DoAction(say("x")), Tag::ShowFrame])])],
        code: vec![],
    };
    let mut p = Player::new(movie);
    p.stage.objs.clear();
    assert_eq!(p.tick(), Err(FatalError::NoRoot));
    assert_eq!(p.run(3), Err(FatalError::NoRoot));
    assert!(lines(&p).is_empty());
}

#[test]
fn frame_enter_handlers_follow_frame_actions_in_creation_order() {
    let handler = |who: &str| Function { registers: 0, preload: no_preload(), body: say(&format!("{}-enter", who)) };
    let clip = |who: &str, f: usize| Character {
        is_clip: true,
        frames: vec![frame(vec![
            Tag::DoAction(vec![
                Action::Push(Value::Str(chars(&format!("{}-frame", who)))),
                Action::Trace,
                Action::Push(Value::Str(chars("onEnterFrame"))),
                Action::Push(Value::Function(f)),
                Action::SetVariable,
            ]),
            Tag::ShowFrame,
        ])],
        init_actions: vec![],
    };
    let movie = Movie {
        version: 7,
        functions: vec![handler("a"), handler("b")],
        characters: vec![
            root(vec![frame(vec![place(2, 1, "a"), place(1, 2, "b"), Tag::ShowFrame])]),
            clip("a", 0),
            clip("b", 1),
        ],
        code: vec![],
    };
    let mut p = Player::new(movie);
    p.tick().unwrap();
    assert_eq!(lines(&p), vec!["b-frame", "a-frame", "a-enter", "b-enter"]);
    p.tick().unwrap();
    assert_eq!(lines(&p), vec!["b-frame", "a-frame", "a-enter", "b-enter", "a-enter", "b-enter"]);
}

#[test]
fn set_target_redirects_following_actions() {
    let movie = Movie {
        version: 7,
        functions: vec![],
        characters: vec![
            root(vec![frame(vec![
                place(1, 1, "kid"),
                Tag::DoAction(vec![
                    Action::SetTarget(chars("kid")),
                    Action::Push(Value::Str(chars("v"))),
                    Action::Push(Value::Str(chars("inside"))),
                    Action::SetVariable,
                    Action::Stop,
                    Action::SetTarget(chars("")),
                    Action::Push(Value::Str(chars("v"))),
                    Action::GetVariable,
                    Action::Trace,
                    Action::SetTarget(chars("nobody")),
                    Action::Push(Value::Str(chars("v"))),
                    Action::GetVariable,
                    Action::Trace,
                ]),
                Tag::ShowFrame,
            ])]),
            Character {
                is_clip: true,
                frames: vec![
                    frame(vec![Tag::ShowFrame]),
                    frame(vec![Tag::DoAction(vec![
                        Action::Push(Value::Str(chars("v"))),
                        Action::GetVariable,
                        Action::Trace,
                    ]), Tag::ShowFrame]),
                ],
                init_actions: vec![],
            },
        ],
        code: vec![],
    };
    let mut p = Player::new(movie);
    p.tick().unwrap();
    assert_eq!(lines(&p), vec!["undefined", "undefined"]);
    let kid = child_of(&p, 0, 1).unwrap();
    assert!(!p.stage.objs[kid].playing);
    p.stage.objs[kid].playing = true;
    p.tick().unwrap();
    assert_eq!(lines(&p), vec!["undefined", "undefined", "inside"]);
}

#[test]
fn goto_label_finds_labelled_frame() {
    let movie = Movie {
        version: 7,
        functions: vec![],
        characters: vec![root(vec![
            frame(vec![
                Tag::DoAction(vec![Action::GotoLabel(chars("end")), Action::Stop]),
                Tag::ShowFrame,
            ]),
            frame(vec![Tag::FrameLabel(chars("middle")), Tag::DoAction(say("middle")), Tag::ShowFrame]),
            frame(vec![Tag::FrameLabel(chars("end")), Tag::DoAction(say("end")), Tag::ShowFrame]),
        ])],
        code: vec![],
    };
    let mut p = Player::new(movie);
    p.tick().unwrap();
    assert_eq!(lines(&p), vec!["end"]);
    assert_eq!(p.stage.objs[0].current_frame, 3);
    assert_eq!(ruffle_core::movie::find_label(&p.movie, 0, &chars("middle")), Some(2));
    assert_eq!(ruffle_core::movie::find_label(&p.movie, 0, &chars("nowhere")), None);
}

#[test]
fn input_is_sampled_once_per_tick() {
    let movie = Movie {
        version: 7,
        functions: vec![],
        characters: vec![root(vec![frame(vec![
            Tag::DoAction(vec![Action::MouseX, Action::Trace, Action::IsKeyDown(65), Action::Trace]),
            Tag::ShowFrame,
        ])])],
        code: vec![],
    };
    let mut p = Player::new(movie);
    p.tick().unwrap();
    p.stage.report_input(InputState { mouse_x: 5, mouse_y: 9, mouse_down: true, keys_down: vec![10, 65] });
    assert_eq!(p.stage.input.mouse_x, 0);
    p.stage.objs[0].current_frame = 0;
    p.tick().unwrap();
    assert_eq!(lines(&p), vec!["0", "false", "5", "true"]);
    assert_eq!(p.stage.input.mouse_y, 9);
}

#[test]
fn sound_requests_reach_the_host_in_order() {
    let movie = Movie {
        version: 7,
        functions: vec![],
        characters: vec![root(vec![frame(vec![
            Tag::DoAction(vec![Action::StartSound(4), Action::StopSound(2), Action::StartSound(9)]),
            Tag::ShowFrame,
        ])])],
        code: vec![],
    };
    let mut p = Player::new(movie);
    p.tick().unwrap();
    assert_eq!(
        p.stage.take_audio(),
        vec![AudioCommand::StartStream(4), AudioCommand::StopStream(2), AudioCommand::StartStream(9)]
    );
    assert!(p.stage.take_audio().is_empty());
}

#[test]
fn scripts_enumerate_arrays_indices_first() {
    let s = |x: &str| Action::Push(Value::Str(chars(x)));
    let acts = vec![
        Action::Push(Value::Num(Number::Int(10))),
        Action::Push(Value::Num(Number::Int(20))),
        Action::InitArray(2),
        Action::StoreRegister(1),
        s("tag"),
        s("x"),
        Action::SetMember,
        Action::PushRegister(1),
        s("length"),
        Action::GetMember,
        Action::Trace,
        Action::PushRegister(1),
        s("1"),
        Action::GetMember,
        Action::Trace,
        Action::PushRegister(1),
        Action::Enumerate,
        Action::Trace,
        Action::Trace,
        Action::Trace,
        Action::Trace,
        Action::InitObject,
        Action::Enumerate,
        Action::Trace,
    ];
    let movie = Movie {
        version: 7,
        functions: vec![],
        characters: vec![root(vec![frame(vec![Tag::DoAction(acts), Tag::ShowFrame])])],
        code: vec![],
    };
    let mut p = Player::new(movie);
    p.tick().unwrap();
    assert_eq!(lines(&p), vec!["2", "20", "0", "1", "tag", "null", "null"]);
}

#[test]
fn structural_defects_are_skipped_with_diagnostics() {
    let movie = Movie {
        version: 7,
        functions: vec![],
        characters: vec![
            root(vec![frame(vec![
                place(1, 1, "a"),
                place(1, 1, "again"),
                place(2, 9, "ghost"),
                Tag::RemoveObject { depth: 5 },
                Tag::DoAction(vec![Action::GotoAndStop(7), Action::Push(Value::Str(chars("still here"))), Action::Trace]),
                Tag::ShowFrame,
            ])]),
            shape(),
        ],
        code: vec![],
    };
    let mut p = Player::new(movie);
    p.tick().unwrap();
    assert_eq!(
        p.stage.diagnostics,
        vec![
            Diagnostic::DepthTaken { parent: 0, depth: 1 },
            Diagnostic::NoSuchCharacter(9),
            Diagnostic::NothingAtDepth { parent: 0, depth: 5 },
            Diagnostic::NoSuchFrame { target: 0, frame: 7 },
        ]
    );
    assert_eq!(lines(&p), vec!["still here"]);
    assert_eq!(p.stage.objs[0].children.len(), 1);
    p.stage.remove(42, 1);
    assert_eq!(p.stage.diagnostics.last(), Some(&Diagnostic::NoSuchObject(42)));
}
