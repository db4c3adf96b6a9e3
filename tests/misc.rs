use vsml::args::{get_parsed_args, is_cache_enabled};
use vsml::audio::MixingContextImpl;
use vsml::frames::{calculate_frame_changes, reusable_frames, FrameWindow};
use vsml::layout::{Alignment, AlignmentSingle};
use vsml::pre_style::{Combinator, Selector};

#[test]
fn output_path_defaults() {
    let a = get_parsed_args("dir/sub/doc.vsml".to_string(), None, Some(3), None, false);
    assert_eq!(a.output_path, "preview.png");
    assert_eq!(a.src_base_path, "dir/sub/");
    assert_eq!(a.input_path, "dir/sub/doc.vsml");
    let b = get_parsed_args("doc.vsml".to_string(), None, Some(3), Some(10), true);
    assert_eq!(b.output_path, "video.mp4");
    assert_eq!(b.src_base_path, "");
    assert!(b.overwrite);
    let c = get_parsed_args("/doc.vsml".to_string(), Some("out.mp4".to_string()), None, None, false);
    assert_eq!(c.output_path, "out.mp4");
    assert_eq!(c.src_base_path, "/");
}

#[test]
fn cache_is_off() {
    assert!(!is_cache_enabled(&"<vsml/>".to_string()));
}

#[test]
fn mixing_context_builds() {
    let _ = MixingContextImpl::new();
    let _ = MixingContextImpl::default();
}

#[test]
fn alignment_axes() {
    assert_eq!(Alignment::TopLeft.x_axis(), AlignmentSingle::Start);
    assert_eq!(Alignment::TopLeft.y_axis(), AlignmentSingle::Start);
    assert_eq!(Alignment::Center.x_axis(), AlignmentSingle::Center);
    assert_eq!(Alignment::Bottom.y_axis(), AlignmentSingle::End);
    assert_eq!(Alignment::Bottom.x_axis(), AlignmentSingle::Center);
    assert_eq!(Alignment::Right.x_axis(), AlignmentSingle::End);
    assert_eq!(Alignment::Right.y_axis(), AlignmentSingle::Center);
    assert_eq!(Alignment::default(), Alignment::TopLeft);
}

#[test]
fn selector_outline() {
    assert_eq!(Combinator::from_str(">"), Combinator::Child);
    assert_eq!(Combinator::from_str("+"), Combinator::NextSibling);
    assert_eq!(Combinator::from_str("~"), Combinator::SubsequentSibling);
    let sel = Selector::from_str("a  > b c ~ d").ok().unwrap();
    let joins: Vec<Combinator> = sel.selector_list.iter().map(|p| p.combinator).collect();
    assert_eq!(
        joins,
        vec![
            Combinator::Child,
            Combinator::Descendant,
            Combinator::SubsequentSibling,
            Combinator::Descendant
        ]
    );
    assert!(Selector::from_str("> a").is_err());
    assert!(Selector::from_str("a > > b").is_err());
}

#[test]
fn frames_with_equal_sets_are_reused() {
    let windows = vec![
        FrameWindow { element: 0, start: 0, end: 4 },
        FrameWindow { element: 1, start: 0, end: 2 },
        FrameWindow { element: 2, start: 2, end: 4 },
    ];
    let sets = calculate_frame_changes(&windows, 4);
    assert_eq!(sets, vec![vec![0, 1], vec![0, 1], vec![0, 2], vec![0, 2]]);
    assert_eq!(reusable_frames(&sets), vec![false, true, false, true]);
    assert_eq!(calculate_frame_changes(&windows, 0).len(), 0);
}
