use compressor::{
    next_step, Action, Event, Phase,
    build_requests, get_spec, prepare_target, target_file, Quality, Scale, TargetAction,
    TargetState,
};

#[test]
fn spec_holds_its_inputs() {
    let s = get_spec(Quality::Best, Scale::Ratio(1, 4), "photo.jpg".to_string(), "out".to_string());
    assert_eq!(s.path, "photo.jpg");
    assert_eq!(s.target_path, "out");
    assert_eq!(s.scale, Scale::Ratio(1, 4));
    assert_eq!(s.quality, Quality::Best);
}

#[test]
fn target_file_keeps_source_name() {
    let s = get_spec(Quality::Best, Scale::Ratio(1, 4), "photos/photo.jpg".to_string(), "out".to_string());
    assert_eq!(target_file(&s), "out/photo.jpg");
}

#[test]
fn target_file_without_source_name_uses_default() {
    let s = get_spec(Quality::Fastest, Scale::Dimension(1, 1), "/".to_string(), "out".to_string());
    assert_eq!(target_file(&s), "out/compressor_default.jpg");
    let s = get_spec(Quality::Fastest, Scale::Dimension(1, 1), "a/..".to_string(), "out".to_string());
    assert_eq!(target_file(&s), "out/compressor_default.jpg");
}

#[test]
fn requests_write_beside_each_file() {
    let files = vec!["a/b.jpg".to_string(), "c.jpg".to_string()];
    let specs = build_requests(Quality::Best, Scale::Dimension(10, 20), &files, "compressed").unwrap();
    assert_eq!(specs.len(), 2);
    assert_eq!(specs[0].path, "a/b.jpg");
    assert_eq!(specs[0].target_path, "a/compressed");
    assert_eq!(specs[1].path, "c.jpg");
    assert_eq!(specs[1].target_path, "compressed");
    assert_eq!(specs[1].scale, Scale::Dimension(10, 20));
    assert_eq!(specs[1].quality, Quality::Best);
}

#[test]
fn requests_for_a_root_are_refused() {
    let files = vec!["a/b.jpg".to_string(), "/".to_string()];
    assert!(build_requests(Quality::Best, Scale::Ratio(1, 10), &files, "out").is_none());
    assert_eq!(build_requests(Quality::Best, Scale::Ratio(1, 10), &vec![], "out").map(|v| v.len()), Some(0));
}

#[test]
fn missing_target_is_created() {
    assert_eq!(prepare_target(TargetState::Missing), TargetAction::Create);
}

#[test]
fn existing_directory_is_used() {
    assert_eq!(prepare_target(TargetState::Directory), TargetAction::Use);
}

#[test]
fn file_as_target_is_reported() {
    assert_eq!(prepare_target(TargetState::NotDirectory), TargetAction::ReportNotDirectory);
}

#[test]
fn missing_target_is_created_before_decode_and_save() {
    let (p, a) = next_step(Phase::Start, Event::TargetIs(TargetState::Missing));
    assert_eq!(a, Action::Prepare(TargetAction::Create));
    let (p, a) = next_step(p, Event::Prepared);
    assert_eq!(a, Action::Decode);
    let (p, a) = next_step(p, Event::Decoded(true));
    assert_eq!(a, Action::ResizeAndSave);
    let (p, a) = next_step(p, Event::Saved(true));
    assert_eq!((p, a), (Phase::Done(true), Action::Finish(true)));
}

#[test]
fn file_as_target_is_reported_and_processing_goes_on() {
    let (p, a) = next_step(Phase::Start, Event::TargetIs(TargetState::NotDirectory));
    assert_eq!(a, Action::Prepare(TargetAction::ReportNotDirectory));
    let (p, a) = next_step(p, Event::Prepared);
    assert_eq!(a, Action::Decode);
    let (_, a) = next_step(p, Event::Decoded(true));
    assert_eq!(a, Action::ResizeAndSave);
}

#[test]
fn broken_source_fails_without_save() {
    let (p, _) = next_step(Phase::Start, Event::TargetIs(TargetState::Directory));
    let (p, _) = next_step(p, Event::Prepared);
    let (p, a) = next_step(p, Event::Decoded(false));
    assert_eq!((p, a), (Phase::Done(false), Action::Finish(false)));
}

#[test]
fn failed_save_fails_request() {
    assert_eq!(next_step(Phase::Saving, Event::Saved(false)), (Phase::Done(false), Action::Finish(false)));
}

#[test]
fn out_of_order_event_fails_request() {
    assert_eq!(next_step(Phase::Start, Event::Decoded(true)), (Phase::Done(false), Action::Finish(false)));
    assert_eq!(next_step(Phase::Done(true), Event::Prepared), (Phase::Done(false), Action::Finish(false)));
}

#[test]
fn plain_source_name_lands_in_target() {
    let s = get_spec(Quality::Best, Scale::Ratio(1, 4), "photo.jpg".to_string(), "out".to_string());
    assert_eq!(target_file(&s), "out/photo.jpg");
    let s = get_spec(Quality::Best, Scale::Ratio(1, 4), "photo.jpg".to_string(), "/abs/out".to_string());
    assert_eq!(target_file(&s), "/abs/out/photo.jpg");
}
