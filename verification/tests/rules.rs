use recallai::data::{Dim, InHandle, Pos, Viewport};
use recallai::meta::MetaHeader;
use recallai::rules::{
    composite, sort_rects, Alpha, AlphaClass, BlitContext, BlitSpan, PartialRules, RuleData, RuleDataJson,
    RuleOpts, RuleRect, RuleRectJson,
};
use recallai::spec::VidFileHeader;
use recallai::TranscodeError;

fn opaque() -> Alpha {
    Alpha { bits: 1.0f32.to_bits(), class: AlphaClass::Opaque }
}

fn half() -> Alpha {
    Alpha { bits: 0.5f32.to_bits(), class: AlphaClass::Translucent }
}

fn invalid() -> Alpha {
    Alpha { bits: 1.5f32.to_bits(), class: AlphaClass::Invalid }
}

fn rect(src: [u32; 4], dest: [u32; 2], alpha: Alpha, z: u32) -> RuleRectJson {
    RuleRectJson { src, dest, alpha, z }
}

fn partial(size: [u32; 2], rects: Vec<RuleRectJson>, occlude: bool) -> PartialRules {
    let opts = RuleOpts { occlude_opaque_layers: occlude, debug: false };
    opts.with_json(RuleDataJson { size, rects }).unwrap()
}

fn meta(width: u32, height: u32) -> MetaHeader {
    MetaHeader::from_vid_header(VidFileHeader { dim: Dim { width, height }, num_frames: 1 }).unwrap()
}

fn span(src_start: usize, tgt_start: usize, len: usize, alpha: Alpha) -> BlitSpan {
    BlitSpan { src_start, tgt_start, len, alpha }
}

#[test]
fn rule_from_document_entry() {
    let r = RuleRect::from_json(rect([1, 2, 3, 4], [5, 6], half(), 7));
    assert_eq!(
        r,
        RuleRect {
            src: Viewport { ul: Pos { x: 1, y: 2 }, dim: Dim { width: 3, height: 4 } },
            dest: Pos { x: 5, y: 6 },
            alpha: half(),
            z: 7,
        }
    );
}

#[test]
fn rule_data_from_document() {
    let d = RuleData::from_json(RuleDataJson {
        size: [8, 4],
        rects: vec![rect([0, 0, 1, 1], [0, 0], opaque(), 2), rect([1, 1, 2, 2], [3, 3], half(), 1)],
    });
    assert_eq!(d.size, Dim { width: 8, height: 4 });
    assert_eq!(d.rects.len(), 2);
    assert_eq!(d.rects[0].z, 2);
    assert_eq!(d.rects[1].dest, Pos { x: 3, y: 3 });
}

#[test]
fn default_options() {
    let o = RuleOpts::default();
    assert!(!o.occlude_opaque_layers);
    assert!(!o.debug);
}

#[test]
fn rules_sort_by_z_then_source_position_stably() {
    let mut v = vec![
        RuleRect::from_json(rect([5, 0, 1, 1], [0, 0], opaque(), 2)),
        RuleRect::from_json(rect([1, 9, 1, 1], [1, 0], opaque(), 1)),
        RuleRect::from_json(rect([1, 3, 1, 1], [2, 0], opaque(), 1)),
        RuleRect::from_json(rect([0, 7, 1, 1], [3, 0], opaque(), 2)),
        RuleRect::from_json(rect([1, 3, 1, 1], [4, 0], half(), 1)),
    ];
    sort_rects(&mut v);
    let order: Vec<u32> = v.iter().map(|r| r.dest.x).collect();
    assert_eq!(order, vec![2, 4, 1, 3, 0]);
}

#[test]
fn blit_context_strides() {
    let c = BlitContext::new(Dim { width: 16, height: 16 }, Dim { width: 8, height: 2 }).unwrap();
    assert_eq!(c, BlitContext { src_width: 48, tgt_width: 24 });
    assert!(matches!(
        BlitContext::new(Dim { width: 0, height: 16 }, Dim { width: 8, height: 2 }),
        Err(TranscodeError::InvalidHeader)
    ));
    assert!(matches!(
        BlitContext::new(Dim { width: 16, height: 16 }, Dim { width: 0, height: 2 }),
        Err(TranscodeError::InvalidRules)
    ));
}

#[test]
fn plan_rows_follow_compositing_order() {
    let p = partial(
        [8, 4],
        vec![rect([0, 0, 2, 2], [1, 1], opaque(), 1), rect([4, 4, 3, 1], [0, 0], half(), 0)],
        false,
    );
    assert!(p.can_build());
    let rules = p.build(meta(16, 16)).unwrap();
    assert_eq!(rules.get_tgt_dim(), Dim { width: 8, height: 4 });
    let src_len = 16 * 16 * 3;
    let tgt_len = 8 * 4 * 3;
    assert!(rules.fits_frames(src_len, tgt_len));
    let plan = rules.frame_plan(src_len, tgt_len);
    assert_eq!(
        plan,
        vec![span(204, 0, 9, half()), span(0, 27, 6, opaque()), span(48, 51, 6, opaque())]
    );
}

#[test]
fn rules_outside_the_frames_do_not_fit() {
    let p = partial([8, 4], vec![rect([0, 0, 2, 2], [7, 3], opaque(), 0)], false);
    let rules = p.build(meta(16, 16)).unwrap();
    assert!(!rules.fits_frames(16 * 16 * 3, 8 * 4 * 3));
    assert!(rules.fits_frames(16 * 16 * 3, 8 * 5 * 3 + 6));
}

#[test]
fn occluded_opaque_rule_is_dropped() {
    let rects = || vec![rect([0, 0, 2, 2], [0, 0], opaque(), 0), rect([0, 0, 4, 4], [0, 0], opaque(), 1)];
    let kept = partial([4, 4], rects(), false).build(meta(16, 16)).unwrap();
    assert_eq!(kept.frame_plan(16 * 16 * 3, 48).len(), 6);

    let p = partial([4, 4], rects(), true);
    assert!(p.can_build());
    let thinned = p.build(meta(16, 16)).unwrap();
    let plan = thinned.frame_plan(16 * 16 * 3, 48);
    assert_eq!(plan.len(), 4);
    assert_eq!(plan[0], span(0, 0, 12, opaque()));
}

#[test]
fn partly_visible_rule_is_kept() {
    let p = partial(
        [4, 4],
        vec![rect([0, 0, 2, 2], [2, 2], opaque(), 0), rect([0, 0, 3, 3], [0, 0], opaque(), 1)],
        true,
    );
    let rules = p.build(meta(16, 16)).unwrap();
    assert_eq!(rules.frame_plan(16 * 16 * 3, 48).len(), 5);
}

#[test]
fn translucent_rule_in_front_hides_nothing() {
    let p = partial(
        [4, 4],
        vec![rect([0, 0, 2, 2], [0, 0], opaque(), 0), rect([0, 0, 4, 4], [0, 0], half(), 1)],
        true,
    );
    let rules = p.build(meta(16, 16)).unwrap();
    assert_eq!(rules.frame_plan(16 * 16 * 3, 48).len(), 6);
}

#[test]
fn invalid_opacity_fails_only_with_occlusion() {
    let rects = || vec![rect([0, 0, 2, 2], [0, 0], invalid(), 0)];
    assert!(matches!(
        partial([4, 4], rects(), true).build(meta(16, 16)),
        Err(TranscodeError::InvalidAlpha)
    ));
    assert!(partial([4, 4], rects(), false).build(meta(16, 16)).is_ok());
}

#[test]
fn zero_target_width_is_invalid_rules() {
    assert!(matches!(
        partial([0, 4], vec![], false).build(meta(16, 16)),
        Err(TranscodeError::InvalidRules)
    ));
}

#[test]
fn unbuildable_rules_are_reported() {
    // an opaque rule reaching past the target cannot be checked for occlusion
    let p = partial([4, 4], vec![rect([0, 0, 2, 2], [3, 3], opaque(), 0)], true);
    assert!(!p.can_build());
    let q = partial([4, 4], vec![rect([0, 0, 2, 2], [3, 3], opaque(), 0)], false);
    assert!(q.can_build());
    let wide = partial([u32::MAX / 2, 1], vec![], false);
    assert!(!wide.can_build());
}

#[test]
fn only_files_carry_rules() {
    assert_eq!(RuleOpts::json_file_of(InHandle::File("r.json".into())).unwrap(), "r.json");
    assert!(matches!(RuleOpts::json_file_of(InHandle::Stdin), Err(TranscodeError::MissingRules)));
    assert!(matches!(
        RuleOpts::json_file_of(InHandle::HTTP_GET("http://r".into())),
        Err(TranscodeError::MissingRules)
    ));
}

#[test]
fn frame_is_cleared_then_blended_in_order() {
    let p = partial(
        [4, 1],
        vec![rect([0, 0, 2, 1], [1, 0], half(), 1), rect([1, 0, 2, 1], [0, 0], opaque(), 0)],
        false,
    );
    let rules = p.build(meta(16, 16)).unwrap();
    let src: Vec<u8> = (0..16 * 16 * 3).map(|i| (i % 200) as u8 + 1).collect();
    let mut tgt = vec![9u8; 12];
    // a blend that records the order: new = source + 2 * old
    let r = rules.process_frame(0, &src, &mut tgt, |s: u8, d: u8, _bits: u32| s.wrapping_add(d.wrapping_mul(2)));
    assert!(r.is_ok());
    // z = 0 rule: source bytes 3..9 onto target bytes 0..6 over zeros
    // z = 1 rule: source bytes 0..6 onto target bytes 3..9 over the previous result
    let mut expect = vec![0u8; 12];
    for i in 0..6 {
        expect[i] = src[3 + i];
    }
    for i in 0..6 {
        expect[3 + i] = src[i].wrapping_add(expect[3 + i].wrapping_mul(2));
    }
    assert_eq!(tgt, expect);
}

#[test]
fn composite_with_plan_and_opacity_bits() {
    let plan = vec![span(0, 1, 2, half()), span(2, 0, 1, opaque())];
    let src = [10u8, 20, 30];
    let mut tgt = [7u8; 3];
    composite(&plan, &src, &mut tgt, |s: u8, d: u8, bits: u32| {
        if bits == 1.0f32.to_bits() { s } else { s / 2 + d }
    });
    assert_eq!(tgt, [30, 5, 10]);
}

fn float_blend(s: u8, d: u8, bits: u32) -> u8 {
    let a = f32::from_bits(bits);
    ((s as f32) * a + (d as f32) * (1.0 - a)) as u8
}

#[test]
fn dropping_hidden_rules_keeps_the_frame() {
    let rects = || {
        vec![
            rect([0, 0, 2, 2], [0, 0], opaque(), 0),
            rect([3, 1, 2, 1], [1, 0], half(), 1),
            rect([5, 5, 3, 3], [0, 0], opaque(), 2),
            rect([2, 2, 1, 3], [3, 0], half(), 3),
        ]
    };
    let all = partial([4, 4], rects(), false).build(meta(16, 16)).unwrap();
    let thinned = partial([4, 4], rects(), true).build(meta(16, 16)).unwrap();
    let src: Vec<u8> = (0..16 * 16 * 3).map(|i| ((i * 37) % 256) as u8).collect();
    assert_eq!(all.frame_plan(src.len(), 48).len(), 9);
    assert_eq!(thinned.frame_plan(src.len(), 48).len(), 7);
    let mut a = vec![0u8; 48];
    let mut b = vec![0u8; 48];
    all.process_frame(0, &src, &mut a, float_blend).unwrap();
    thinned.process_frame(0, &src, &mut b, float_blend).unwrap();
    assert_eq!(a, b);
}
