use ruffle_core::navigator::{
    NavigationMethod, NullExecutor, NullNavigatorBackend, PollOutcome, RequestOptions, SendVarsMethod,
};
use ruffle_core::pipelines::{
    BindingKind, BlendFactor, IncompleteDrawType, Pipelines, SamplerSetup, ShapePipeline, StencilCompare,
    StencilOp,
};

#[test]
fn method_strings() {
    assert_eq!(NavigationMethod::from_method_str("GET"), Some(NavigationMethod::GET));
    assert_eq!(NavigationMethod::from_method_str("POST"), Some(NavigationMethod::POST));
    assert_eq!(NavigationMethod::from_method_str("get"), None);
    assert_eq!(NavigationMethod::from_method_str("PUT"), None);
    assert_eq!(NavigationMethod::from_method_str(""), None);
    assert_eq!(NavigationMethod::from_method_str("GETS"), None);
}

#[test]
fn send_vars_methods() {
    assert_eq!(NavigationMethod::from_send_vars_method(SendVarsMethod::Omit), None);
    assert_eq!(NavigationMethod::from_send_vars_method(SendVarsMethod::Get), Some(NavigationMethod::GET));
    assert_eq!(NavigationMethod::from_send_vars_method(SendVarsMethod::Post), Some(NavigationMethod::POST));
}

#[test]
fn request_options() {
    let g = RequestOptions::get();
    assert_eq!(g.method(), NavigationMethod::GET);
    assert!(g.body().is_none());
    let p = RequestOptions::post(Some((vec![1, 2, 3], "application/x-www-form-urlencoded".to_string())));
    assert_eq!(p.method(), NavigationMethod::POST);
    let (data, mime) = p.body().as_ref().unwrap();
    assert_eq!(data, &vec![1u8, 2, 3]);
    assert_eq!(mime, "application/x-www-form-urlencoded");
}

#[test]
fn executor_keeps_pending_tasks_in_order() {
    let mut ex = NullExecutor::new();
    assert!(!ex.has_work(&vec![]));
    assert!(ex.has_work(&vec![1, 2, 3, 4]));
    assert_eq!(
        ex.poll_all(&vec![PollOutcome::Pending, PollOutcome::Done, PollOutcome::Pending, PollOutcome::Done]),
        Ok(())
    );
    assert_eq!(ex.queued(), &vec![1, 3]);
    ex.flush_channel(&vec![5]);
    assert_eq!(ex.queued(), &vec![1, 3, 5]);
    assert_eq!(ex.poll_all(&vec![PollOutcome::Done, PollOutcome::Done, PollOutcome::Done]), Ok(()));
    assert!(!ex.has_work(&vec![]));
}

#[test]
fn executor_stops_at_first_failure() {
    let mut ex = NullExecutor::new();
    ex.flush_channel(&vec![10, 11, 12, 13, 14]);
    let r = ex.poll_all(&vec![
        PollOutcome::Pending,
        PollOutcome::Done,
        PollOutcome::Failed,
        PollOutcome::Failed,
        PollOutcome::Pending,
    ]);
    assert_eq!(r, Err(12));
    assert_eq!(ex.queued(), &vec![13, 14, 10]);
}

#[test]
fn navigator_spawns_and_resolves_paths() {
    let mut nav = NullNavigatorBackend::with_base_path("movies/");
    assert_eq!(nav.relative_base_path(), "movies/");
    assert_eq!(nav.time_since_launch(), 0);
    nav.spawn_future(7);
    nav.spawn_future(8);
    assert_eq!(nav.take_spawned(), vec![7, 8]);
    assert!(nav.take_spawned().is_empty());
    let plain = NullNavigatorBackend::new();
    assert_eq!(plain.relative_base_path(), "");
}

#[test]
fn pipeline_choice_by_mask_state() {
    let p = ShapePipeline {
        write_mask_pipelines: (0..8).map(|i| 100 + i).collect::<Vec<u32>>(),
        read_mask_pipelines: (0..256).collect::<Vec<u32>>(),
        bind_layout: (),
    };
    assert_eq!(*p.pipeline_for(2, 1, 1, 0b100), 102);
    assert_eq!(*p.pipeline_for(2, 1, 1, 0b1000_0000), 107);
    assert_eq!(*p.pipeline_for(1, 1, 5, 1), 5);
    assert_eq!(*p.pipeline_for(0, 0, 255, 0), 255);
}

#[test]
fn pipeline_setups_per_fill_kind() {
    let p = Pipelines::new();
    assert_eq!(p.color.write_mask_pipelines.len(), 8);
    assert_eq!(p.color.read_mask_pipelines.len(), 256);
    assert_eq!(p.color.write_mask_pipelines[3].write_mask, 8);
    assert_eq!(p.color.write_mask_pipelines[3].compare, StencilCompare::Always);
    assert_eq!(p.color.write_mask_pipelines[3].pass_op, StencilOp::Replace);
    assert!(!p.color.write_mask_pipelines[3].writes_color);
    assert_eq!(p.gradient.read_mask_pipelines[200].read_mask, 200);
    assert_eq!(p.gradient.read_mask_pipelines[200].compare, StencilCompare::Equal);
    assert!(p.gradient.read_mask_pipelines[200].writes_color);
    assert_eq!(p.bitmap.read_mask_pipelines[7].color_src, BlendFactor::One);
    assert_eq!(p.color.read_mask_pipelines[7].color_src, BlendFactor::SrcAlpha);
    assert_eq!(p.color.bind_layout.len(), 2);
    assert_eq!(p.gradient.bind_layout.len(), 4);
    assert_eq!(p.bitmap.bind_layout.len(), 5);
    assert_eq!(p.bitmap.bind_layout[4].kind, BindingKind::Sampler);
    assert_eq!(*p.bitmap.pipeline_for(2, 1, 0, 0b10), p.bitmap.write_mask_pipelines[1]);
    let d = IncompleteDrawType::Bitmap { is_smoothed: true, is_repeating: false };
    assert_eq!(d.name(), "Bitmap");
    assert_eq!(IncompleteDrawType::Color.name(), "Color");
    assert_eq!(IncompleteDrawType::Gradient.name(), "Gradient");
    assert_eq!(d.sampler(), Some(SamplerSetup { repeat: false, linear: true }));
    assert_eq!(IncompleteDrawType::Gradient.sampler(), None);
    assert_eq!(d.layout().len(), 5);
}
