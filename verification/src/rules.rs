use vstd::prelude::*;

use crate::data::{Dim, Pos, Viewport};
use crate::meta::MetaHeader;
use crate::spec::BYTES_PER_PIXEL;
use crate::TranscodeError;

verus! {

/// The class of an opacity value, as the transcoder tells them apart: above one it is
/// invalid; within machine epsilon of one it is opaque; otherwise it is blended.
#[derive(Debug, Copy, Clone, PartialEq, Eq, Structural)]
pub enum AlphaClass {
    Invalid,
    Opaque,
    Translucent,
}

/// The opacity of a composited rectangle: the bit pattern of its 32-bit float value,
/// carried unchanged for blending, and the class of that value.
#[derive(Debug, Copy, Clone, PartialEq, Eq, Structural)]
pub struct Alpha {
    pub bits: u32,
    pub class: AlphaClass,
}

/// One rule as it is written in the rules document.
#[derive(Debug, Copy, Clone)]
pub struct RuleRectJson {
    /// [x, y, width, height] -- copy source
    pub src: [u32; 4],
    /// [x, y] -- copy destination
    pub dest: [u32; 2],
    /// opacity of the composited rectangle
    pub alpha: Alpha,
    /// z-index of compositing order
    pub z: u32,
}

/// The rules document: the target frame size and the rectangles to composite.
#[derive(Debug)]
pub struct RuleDataJson {
    /// [width, height]
    pub size: [u32; 2],
    pub rects: Vec<RuleRectJson>,
}

/// A rectangle copied from the source frame into the target frame.
#[derive(Debug, Copy, Clone, PartialEq, Eq, Structural)]
pub struct RuleRect {
    /// copy source
    pub src: Viewport,
    /// copy destination (upper left)
    pub dest: Pos,
    /// opacity of the composited rectangle
    pub alpha: Alpha,
    /// z-index of compositing order
    pub z: u32,
}

/// The rule that a rule document entry describes.
pub open spec fn rule_of_json(value: RuleRectJson) -> RuleRect {
    RuleRect {
        src: Viewport {
            ul: Pos { x: value.src[0], y: value.src[1] },
            dim: Dim { width: value.src[2], height: value.src[3] },
        },
        dest: Pos { x: value.dest[0], y: value.dest[1] },
        alpha: value.alpha,
        z: value.z,
    }
}

impl RuleRect {
    /// The rule that a rule document entry describes.
    pub fn from_json(value: RuleRectJson) -> (r: Self)
        ensures
            r == rule_of_json(value),
    {
        let x = value.src[0];
        let y = value.src[1];
        let width = value.src[2];
        let height = value.src[3];
        let src = Viewport { ul: Pos { x, y }, dim: Dim { width, height } };
        let dest = Pos { x: value.dest[0], y: value.dest[1] };
        RuleRect { src, dest, alpha: value.alpha, z: value.z }
    }
}

/// The target frame size and the rules, in compositing order.
#[derive(Debug)]
pub struct RuleData {
    pub size: Dim,
    pub rects: Vec<RuleRect>,
}

impl RuleData {
    /// The rule data that a rules document describes.
    pub fn from_json(value: RuleDataJson) -> (r: Self)
        ensures
            r.size == (Dim { width: value.size[0], height: value.size[1] }),
            r.rects@.len() == value.rects@.len(),
            forall|i: int|
                0 <= i < value.rects@.len() ==> r.rects@[i] == rule_of_json(
                    #[trigger] value.rects@[i],
                ),
    {
        let mut rects: Vec<RuleRect> = Vec::new();
        let n = value.rects.len();
        let mut i: usize = 0;
        while i < n
            invariant
                n == value.rects@.len(),
                i <= n,
                rects@.len() == i,
                forall|k: int| 0 <= k < i ==> rects@[k] == rule_of_json(#[trigger] value.rects@[k]),
            decreases n - i,
        {
            rects.push(RuleRect::from_json(value.rects[i]));
            i = i + 1;
        }
        RuleData { size: Dim { width: value.size[0], height: value.size[1] }, rects }
    }
}

// ---------------------------------------------------------------------------------------
// Compositing order

/// The compositing key of a rule: z-index, then source column, then source row.
pub open spec fn key_le(a: RuleRect, b: RuleRect) -> bool {
    a.z < b.z || (a.z == b.z && (a.src.ul.x < b.src.ul.x || (a.src.ul.x == b.src.ul.x
        && a.src.ul.y <= b.src.ul.y)))
}

/// Whether `s` is in compositing order.
pub open spec fn rules_sorted(s: Seq<RuleRect>) -> bool {
    forall|i: int, j: int| 0 <= i < j < s.len() ==> key_le(#[trigger] s[i], #[trigger] s[j])
}

/// `x` placed into `s` after every element whose key is no greater than its own,
/// searching from the back.
pub open spec fn insert_sorted(s: Seq<RuleRect>, x: RuleRect) -> Seq<RuleRect>
    decreases s.len(),
{
    if s.len() == 0 {
        seq![x]
    } else if key_le(s.last(), x) {
        s.push(x)
    } else {
        insert_sorted(s.drop_last(), x).push(s.last())
    }
}

/// The stable sort of `s` by compositing key.
pub open spec fn sort_spec(s: Seq<RuleRect>) -> Seq<RuleRect>
    decreases s.len(),
{
    if s.len() == 0 {
        Seq::empty()
    } else {
        insert_sorted(sort_spec(s.drop_last()), s.last())
    }
}

/// Taking the elements of `s` from position `k` on, all of which sort after `x`,
/// off before inserting and putting them back afterwards changes nothing.
proof fn lemma_insert_split(s: Seq<RuleRect>, x: RuleRect, k: int)
    requires
        0 <= k <= s.len(),
        forall|m: int| k <= m < s.len() ==> !key_le(#[trigger] s[m], x),
    ensures
        insert_sorted(s, x) == insert_sorted(s.subrange(0, k), x) + s.subrange(k, s.len() as int),
    decreases s.len() - k,
{
    if k == s.len() {
        assert(s.subrange(0, k) =~= s);
        assert(s.subrange(k, s.len() as int) =~= Seq::<RuleRect>::empty());
        assert(insert_sorted(s, x) + Seq::<RuleRect>::empty() =~= insert_sorted(s, x));
    } else {
        let t = s.drop_last();
        assert(!key_le(s[s.len() - 1], x));
        lemma_insert_split(t, x, k);
        assert(t.subrange(0, k) =~= s.subrange(0, k));
        assert(t.subrange(k, t.len() as int).push(s.last()) =~= s.subrange(k, s.len() as int));
        assert((insert_sorted(s.subrange(0, k), x) + t.subrange(k, t.len() as int)).push(s.last())
            =~= insert_sorted(s.subrange(0, k), x) + s.subrange(k, s.len() as int));
    }
}

/// Inserting keeps the multiset of elements and the order.
pub proof fn lemma_insert_sorted_props(s: Seq<RuleRect>, x: RuleRect)
    requires
        rules_sorted(s),
    ensures
        rules_sorted(insert_sorted(s, x)),
        insert_sorted(s, x).to_multiset() == s.to_multiset().insert(x),
        insert_sorted(s, x).len() == s.len() + 1,
    decreases s.len(),
{
    broadcast use vstd::seq_lib::group_to_multiset_ensures;
    if s.len() == 0 {
        assert(seq![x] =~= Seq::<RuleRect>::empty().push(x));
    } else if key_le(s.last(), x) {
        let r = s.push(x);
        assert forall|i: int, j: int| 0 <= i < j < r.len() implies key_le(#[trigger] r[i], #[trigger] r[j]) by {
            if j == s.len() {
                assert(key_le(s[i], s[s.len() - 1]) || i == s.len() - 1);
            }
        }
    } else {
        let t = s.drop_last();
        let l = s.last();
        assert(rules_sorted(t));
        lemma_insert_sorted_props(t, x);
        let u = insert_sorted(t, x);
        let r = u.push(l);
        assert(s =~= t.push(l));
        assert forall|i: int, j: int| 0 <= i < j < r.len() implies key_le(#[trigger] r[i], #[trigger] r[j]) by {
            if j == r.len() - 1 {
                // every element of u is either x or an element of t, all of which sort before l
                assert(u.to_multiset().count(r[i]) > 0) by {
                    assert(u.contains(r[i]));
                }
                if r[i] == x {
                } else {
                    assert(t.to_multiset().count(r[i]) > 0);
                    assert(t.contains(r[i]));
                    let m = choose|m: int| 0 <= m < t.len() && t[m] == r[i];
                    assert(key_le(s[m], s[s.len() - 1]));
                }
            }
        }
    }
}

/// The stable sort is sorted and holds the same elements.
pub proof fn lemma_sort_spec_props(s: Seq<RuleRect>)
    ensures
        rules_sorted(sort_spec(s)),
        sort_spec(s).to_multiset() == s.to_multiset(),
        sort_spec(s).len() == s.len(),
    decreases s.len(),
{
    broadcast use vstd::seq_lib::group_to_multiset_ensures;
    if s.len() == 0 {
        assert(sort_spec(s) =~= s);
    } else {
        lemma_sort_spec_props(s.drop_last());
        lemma_insert_sorted_props(sort_spec(s.drop_last()), s.last());
        assert(s =~= s.drop_last().push(s.last()));
    }
}

/// Whether `a` and `b` have the same compositing key.
pub open spec fn same_key(a: RuleRect, b: RuleRect) -> bool {
    key_le(a, b) && key_le(b, a)
}

/// The elements of `s` whose compositing key is that of `r`, in their order in `s`.
pub open spec fn key_class(s: Seq<RuleRect>, r: RuleRect) -> Seq<RuleRect> {
    s.filter(|y: RuleRect| same_key(y, r))
}

/// Inserting `x` puts it after every element with its key: among the elements with a
/// given key, the order is kept and `x`, if it has that key, comes last.
proof fn lemma_insert_key_class(t: Seq<RuleRect>, x: RuleRect, r: RuleRect)
    ensures
        key_class(insert_sorted(t, x), r) == key_class(t, r) + (if same_key(x, r) {
            seq![x]
        } else {
            Seq::<RuleRect>::empty()
        }),
    decreases t.len(),
{
    reveal(Seq::filter);
    let p = |y: RuleRect| same_key(y, r);
    if t.len() == 0 {
        assert(seq![x].drop_last() =~= t);
        assert(t.filter(p) =~= Seq::<RuleRect>::empty());
        if p(x) {
            assert(Seq::<RuleRect>::empty().push(x) =~= seq![x]);
            assert(t.filter(p) + seq![x] =~= seq![x]);
        } else {
            assert(t.filter(p) + Seq::<RuleRect>::empty() =~= t.filter(p));
        }
    } else if key_le(t.last(), x) {
        let u = t.push(x);
        assert(u.drop_last() =~= t);
        if p(x) {
            assert(t.filter(p).push(x) =~= t.filter(p) + seq![x]);
        } else {
            assert(t.filter(p) + Seq::<RuleRect>::empty() =~= t.filter(p));
        }
    } else {
        let t0 = t.drop_last();
        let l = t.last();
        lemma_insert_key_class(t0, x, r);
        let u = insert_sorted(t0, x);
        assert(u.push(l).drop_last() =~= u);
        assert(!(p(x) && p(l)));
        if p(x) {
            assert((t0.filter(p) + seq![x]) =~= t0.filter(p).push(x));
            assert(t0.filter(p) + Seq::<RuleRect>::empty() =~= t0.filter(p));
        } else if p(l) {
            assert(t0.filter(p) + Seq::<RuleRect>::empty() =~= t0.filter(p));
            assert(t.filter(p) + Seq::<RuleRect>::empty() =~= t.filter(p));
        } else {
            assert(t0.filter(p) + Seq::<RuleRect>::empty() =~= t0.filter(p));
            assert(t.filter(p) + Seq::<RuleRect>::empty() =~= t.filter(p));
        }
    }
}

/// The sort is stable: the elements that share a compositing key come out in the order in
/// which they went in.
pub proof fn lemma_sort_spec_stable(s: Seq<RuleRect>, r: RuleRect)
    ensures
        key_class(sort_spec(s), r) == key_class(s, r),
    decreases s.len(),
{
    reveal(Seq::filter);
    let p = |y: RuleRect| same_key(y, r);
    if s.len() == 0 {
        assert(sort_spec(s) =~= s);
    } else {
        let s0 = s.drop_last();
        lemma_sort_spec_stable(s0, r);
        lemma_insert_key_class(sort_spec(s0), s.last(), r);
        if p(s.last()) {
            assert(s0.filter(p) + seq![s.last()] =~= s0.filter(p).push(s.last()));
        } else {
            assert(s0.filter(p) + Seq::<RuleRect>::empty() =~= s0.filter(p));
        }
    }
}

/// Exec compositing key comparison.
fn key_le_exec(a: &RuleRect, b: &RuleRect) -> (r: bool)
    ensures
        r == key_le(*a, *b),
{
    a.z < b.z || (a.z == b.z && (a.src.ul.x < b.src.ul.x || (a.src.ul.x == b.src.ul.x
        && a.src.ul.y <= b.src.ul.y)))
}

/// Sorts `v` stably by compositing key (insertion sort).
pub fn sort_rects(v: &mut Vec<RuleRect>)
    ensures
        final(v)@ == sort_spec(old(v)@),
{
    let ghost orig = v@;
    let n = v.len();
    let mut i: usize = 0;
    while i < n
        invariant
            n == v@.len(),
            n == orig.len(),
            i <= n,
            v@.subrange(0, i as int) == sort_spec(orig.subrange(0, i as int)),
            v@.subrange(i as int, n as int) == orig.subrange(i as int, n as int),
        decreases n - i,
    {
        let ghost pre = v@;
        let ghost sorted_prefix = pre.subrange(0, i as int);
        let x = v[i];
        assert(orig[i as int] == x) by {
            assert(pre.subrange(i as int, n as int)[0] == orig.subrange(i as int, n as int)[0]);
        }
        let mut j: usize = i;
        while j > 0 && !key_le_exec(&v[j - 1], &x)
            invariant
                n == v@.len(),
                0 <= j <= i < n,
                sorted_prefix.len() == i,
                forall|m: int| 0 <= m < j ==> v@[m] == sorted_prefix[m],
                forall|m: int| j < m <= i ==> v@[m] == sorted_prefix[m - 1],
                forall|m: int| j <= m < i ==> !key_le(#[trigger] sorted_prefix[m], x),
                forall|m: int| i < m < n ==> v@[m] == pre[m],
            decreases j,
        {
            let prev = v[j - 1];
            v.set(j, prev);
            j = j - 1;
        }
        v.set(j, x);
        proof {
            lemma_insert_split(sorted_prefix, x, j as int);
            if j > 0 {
                assert(key_le(sorted_prefix[j - 1], x));
                assert(sorted_prefix.subrange(0, j as int).last() == sorted_prefix[j - 1]);
            }
            assert(insert_sorted(sorted_prefix.subrange(0, j as int), x) =~= sorted_prefix.subrange(0, j as int).push(x)) by {
                if j == 0 {
                    assert(sorted_prefix.subrange(0, 0) =~= Seq::<RuleRect>::empty());
                }
            }
            let oi = orig.subrange(0, i + 1);
            assert(oi.drop_last() =~= orig.subrange(0, i as int));
            assert(oi.last() == x);
            assert(v@.subrange(0, i + 1) =~= sorted_prefix.subrange(0, j as int).push(x) + sorted_prefix.subrange(j as int, i as int));
            assert forall|m: int| i < m < n implies v@[m] == orig[m] by {
                assert(pre.subrange(i as int, n as int)[m - i] == orig.subrange(i as int, n as int)[m - i]);
            }
            assert(v@.subrange(i + 1, n as int) =~= orig.subrange(i + 1, n as int));
        }
        i = i + 1;
    }
    assert(v@ =~= v@.subrange(0, n as int));
    assert(orig =~= orig.subrange(0, n as int));
}

// ---------------------------------------------------------------------------------------
// Options and building

/// Options for reading rules.
#[derive(Debug, Copy, Clone)]
pub struct RuleOpts {
    pub occlude_opaque_layers: bool,
    pub debug: bool,
}

impl Default for RuleOpts {
    fn default() -> (r: Self)
        ensures
            r.occlude_opaque_layers == false,
            r.debug == false,
    {
        RuleOpts { occlude_opaque_layers: false, debug: false }
    }
}

/// Rules read from a document, not yet bound to a source video.
#[derive(Debug)]
pub struct PartialRules {
    rules: RuleData,
    pub occlude_opaque_layers: bool,
    debug: bool,
}

impl PartialRules {
    /// The target frame size the rules ask for.
    pub closed spec fn spec_size(&self) -> Dim {
        self.rules.size
    }

    /// The rules, in document order.
    pub closed spec fn spec_rects(&self) -> Seq<RuleRect> {
        self.rules.rects@
    }

    /// Whether fully occluded opaque rules are to be dropped.
    pub closed spec fn spec_occlude(&self) -> bool {
        self.occlude_opaque_layers
    }

    /// Whether the rules were read in debug mode.
    pub closed spec fn spec_debug(&self) -> bool {
        self.debug
    }
}

impl RuleOpts {
    /// The file that rules named by an input handle are read from: only a file handle names
    /// rules; any other is `MissingRules`.
    pub fn json_file_of(in_handle: crate::data::InHandle) -> (r: Result<String, TranscodeError>)
        ensures
            in_handle matches crate::data::InHandle::File(u) ==> r == Ok::<String, TranscodeError>(u),
            !(in_handle is File) ==> r matches Err(TranscodeError::MissingRules),
    {
        match in_handle {
            crate::data::InHandle::File(u) => Ok(u),
            _ => Err(TranscodeError::MissingRules),
        }
    }

    /// Binds the options to the rules of a document.
    pub fn with_json(self, json: RuleDataJson) -> (r: Result<PartialRules, TranscodeError>)
        ensures
            r matches Ok(p) && p.spec_size() == (Dim { width: json.size[0], height: json.size[1] })
                && p.spec_rects().len() == json.rects@.len()
                && (forall|i: int| 0 <= i < json.rects@.len()
                    ==> p.spec_rects()[i] == rule_of_json(#[trigger] json.rects@[i]))
                && p.spec_occlude() == self.occlude_opaque_layers
                && p.spec_debug() == self.debug,
    {
        let rules = RuleData::from_json(json);
        Ok(PartialRules { rules, occlude_opaque_layers: self.occlude_opaque_layers, debug: self.debug })
    }
}

/// Row strides of the source and the target frame, in bytes.
#[derive(Debug, Copy, Clone, PartialEq, Eq, Structural)]
pub struct BlitContext {
    pub src_width: u32,
    pub tgt_width: u32,
}

impl BlitContext {
    /// The strides for frames of the given sizes; a zero width is refused.
    pub fn new(src_dim: Dim, tgt_dim: Dim) -> (r: Result<Self, TranscodeError>)
        requires
            src_dim.width * 3 <= u32::MAX,
            tgt_dim.width * 3 <= u32::MAX,
        ensures
            src_dim.width == 0 ==> r matches Err(TranscodeError::InvalidHeader),
            src_dim.width != 0 && tgt_dim.width == 0 ==> r matches Err(TranscodeError::InvalidRules),
            src_dim.width != 0 && tgt_dim.width != 0 ==> r == Ok::<BlitContext, TranscodeError>(
                BlitContext { src_width: (3 * src_dim.width) as u32, tgt_width: (3 * tgt_dim.width) as u32 },
            ),
    {
        let src_width = BYTES_PER_PIXEL * src_dim.width;
        let tgt_width = BYTES_PER_PIXEL * tgt_dim.width;
        if src_width == 0 {
            Err(TranscodeError::InvalidHeader)
        } else if tgt_width == 0 {
            Err(TranscodeError::InvalidRules)
        } else {
            Ok(BlitContext { src_width, tgt_width })
        }
    }
}

} // verus!

verus! {

// ---------------------------------------------------------------------------------------
// Occlusion of opaque rules

/// Flat index, in a one-byte-per-pixel buffer of row length `w`, of the pixel at row `i`
/// and column `j` of the destination rectangle of `r`.
pub open spec fn pix(r: RuleRect, w: int, i: int, j: int) -> int {
    (r.dest.y + i) * w + r.dest.x + j
}

/// The flat indices that the destination rectangle of `r` covers.
pub open spec fn rule_pixels(r: RuleRect, w: int) -> Set<int> {
    Set::new(
        |p: int|
            exists|a: int, b: int|
                0 <= a < r.src.dim.height && 0 <= b < r.src.dim.width && p == pix(r, w, a, b),
    )
}

/// The flat indices of the destination rectangle of `r` that come before row `i`,
/// column `j` in row-major order.
pub open spec fn visited_pixels(r: RuleRect, w: int, i: int, j: int) -> Set<int> {
    Set::new(
        |p: int|
            exists|a: int, b: int|
                0 <= a < r.src.dim.height && 0 <= b < r.src.dim.width && (a < i || (a == i && b
                    < j)) && p == pix(r, w, a, b),
    )
}

/// Whether the destination rectangle of `r` lies within a flat buffer of `area` pixels
/// with rows of `w` pixels.
pub open spec fn dest_within(r: RuleRect, w: int, area: int) -> bool {
    r.src.dim.width == 0 || r.src.dim.height == 0 || (r.dest.y + r.src.dim.height - 1) * w
        + r.dest.x + r.src.dim.width <= area
}

/// The covered set after the rule `r` is painted over `cov`: opaque rules cover their
/// rectangle; others cover nothing.
pub open spec fn step_cover(r: RuleRect, w: int, cov: Set<int>) -> Set<int> {
    if r.alpha.class == AlphaClass::Opaque {
        cov.union(rule_pixels(r, w))
    } else {
        cov
    }
}

/// The pixels covered by the opaque rules of `s` from position `k` to the end.
pub open spec fn cover_from(s: Seq<RuleRect>, w: int, k: int) -> Set<int>
    decreases s.len() - k,
{
    if k < 0 || k >= s.len() {
        Set::empty()
    } else {
        step_cover(s[k], w, cover_from(s, w, k + 1))
    }
}

/// Whether the rule at position `k` of `s` is opaque and every pixel it would paint is
/// already covered by opaque rules in front of it.
pub open spec fn occluded(s: Seq<RuleRect>, w: int, k: int) -> bool {
    s[k].alpha.class == AlphaClass::Opaque && rule_pixels(s[k], w).subset_of(cover_from(s, w, k + 1))
}

/// The rules among the first `m` of `s` that are not occluded, in order.
pub open spec fn kept_prefix(s: Seq<RuleRect>, w: int, m: int) -> Seq<RuleRect>
    decreases m,
{
    if m <= 0 {
        Seq::empty()
    } else if occluded(s, w, m - 1) {
        kept_prefix(s, w, m - 1)
    } else {
        kept_prefix(s, w, m - 1).push(s[m - 1])
    }
}

/// The rules of `s` that are not occluded, in order.
pub open spec fn without_occluded(s: Seq<RuleRect>, w: int) -> Seq<RuleRect> {
    kept_prefix(s, w, s.len() as int)
}

/// Whether some rule of `s` has an invalid opacity.
pub open spec fn has_invalid_alpha(s: Seq<RuleRect>) -> bool {
    exists|k: int| 0 <= k < s.len() && (#[trigger] s[k]).alpha.class == AlphaClass::Invalid
}

/// Pixel indices of a rectangle that lies within the buffer stay below the area.
proof fn lemma_pix_bound(r: RuleRect, w: int, area: int, a: int, b: int)
    requires
        0 <= w,
        dest_within(r, w, area),
        0 <= a < r.src.dim.height,
        0 <= b < r.src.dim.width,
    ensures
        0 <= pix(r, w, a, b) < area,
        pix(r, w, a, b) + (r.src.dim.width - b) <= area,
{
    let y = r.dest.y as int;
    let h = r.src.dim.height as int;
    assert((y + a) * w <= (y + h - 1) * w) by (nonlinear_arith)
        requires
            0 <= a <= h - 1,
            0 <= w,
            0 <= y,
    ;
    assert(0 <= (y + a) * w) by (nonlinear_arith)
        requires
            0 <= a,
            0 <= w,
            0 <= y,
    ;
}

/// Marks the destination pixels of the opaque rule `r` in `zbuf` and tells whether any of
/// them was not marked before.
fn paint_rule(zbuf: &mut Vec<bool>, r: &RuleRect, w: u32) -> (any_found: bool)
    requires
        r.alpha.class == AlphaClass::Opaque,
        dest_within(*r, w as int, old(zbuf)@.len() as int),
        old(zbuf)@.len() <= u32::MAX,
    ensures
        final(zbuf)@.len() == old(zbuf)@.len(),
        forall|p: int|
            0 <= p < old(zbuf)@.len() ==> (#[trigger] final(zbuf)@[p] <==> (old(zbuf)@[p]
                || rule_pixels(*r, w as int).contains(p))),
        any_found <==> exists|p: int|
            #[trigger] rule_pixels(*r, w as int).contains(p) && 0 <= p < old(zbuf)@.len()
                && !old(zbuf)@[p],
{
    let ghost z0 = zbuf@;
    let ghost wi = w as int;
    let ghost area = z0.len() as int;
    let height = r.src.dim.height;
    let width = r.src.dim.width;
    let mut any_found = false;
    let mut i: u32 = 0;
    while i < height
        invariant
            zbuf@.len() == area,
            area <= u32::MAX,
            z0.len() == area,
            wi == w as int,
            height == r.src.dim.height,
            width == r.src.dim.width,
            r.alpha.class == AlphaClass::Opaque,
            dest_within(*r, wi, area),
            0 <= i <= height,
            forall|p: int|
                0 <= p < area ==> (#[trigger] zbuf@[p] <==> (z0[p] || visited_pixels(*r, wi, i as int, 0).contains(p))),
            any_found <==> exists|p: int|
                #[trigger] visited_pixels(*r, wi, i as int, 0).contains(p) && 0 <= p < area && !z0[p],
        decreases height - i,
    {
        let mut j: u32 = 0;
        while j < width
            invariant
                zbuf@.len() == area,
                area <= u32::MAX,
                z0.len() == area,
                wi == w as int,
                height == r.src.dim.height,
                width == r.src.dim.width,
                dest_within(*r, wi, area),
                0 <= i < height,
                0 <= j <= width,
                forall|p: int|
                    0 <= p < area ==> (#[trigger] zbuf@[p] <==> (z0[p] || visited_pixels(*r, wi, i as int, j as int).contains(p))),
                any_found <==> exists|p: int|
                    #[trigger] visited_pixels(*r, wi, i as int, j as int).contains(p) && 0 <= p < area && !z0[p],
            decreases width - j,
        {
            proof {
                lemma_pix_bound(*r, wi, area, i as int, j as int);
            }
            let row: u64 = (r.dest.y as u64 + i as u64) * (w as u64);
            let p: usize = (row + r.dest.x as u64 + j as u64) as usize;
            assert(p == pix(*r, wi, i as int, j as int));
            let ghost before = visited_pixels(*r, wi, i as int, j as int);
            let ghost after = visited_pixels(*r, wi, i as int, j + 1);
            assert(after =~= before.insert(p as int)) by {
                assert forall|q: int| after.contains(q) implies before.insert(p as int).contains(q) by {
                    let (a, b) = choose|a: int, b: int|
                        0 <= a < r.src.dim.height && 0 <= b < r.src.dim.width && (a < i || (a == i
                            && b < j + 1)) && q == pix(*r, wi, a, b);
                    if !(a == i && b == j) {
                        assert(before.contains(q));
                    }
                }
                assert forall|q: int| before.insert(p as int).contains(q) implies after.contains(q) by {
                    if q == p {
                        assert(0 <= i < r.src.dim.height && 0 <= j < r.src.dim.width && q == pix(*r, wi, i as int, j as int));
                    } else {
                        let (a, b) = choose|a: int, b: int|
                            0 <= a < r.src.dim.height && 0 <= b < r.src.dim.width && (a < i || (a
                                == i && b < j)) && q == pix(*r, wi, a, b);
                        assert(0 <= a < r.src.dim.height && 0 <= b < r.src.dim.width && (a < i || (a == i && b < j + 1)) && q == pix(*r, wi, a, b));
                    }
                }
            }
            if !zbuf[p] {
                any_found = true;
                zbuf.set(p, true);
                assert(after.contains(p as int) && !z0[p as int]);
            } else {
                proof {
                    if any_found {
                        let q = choose|q: int| #[trigger] before.contains(q) && 0 <= q < area && !z0[q];
                        assert(after.contains(q));
                    } else {
                        if exists|q: int| #[trigger] after.contains(q) && 0 <= q < area && !z0[q] {
                            let q = choose|q: int| #[trigger] after.contains(q) && 0 <= q < area && !z0[q];
                            if q != p {
                                assert(before.contains(q));
                            }
                        }
                    }
                }
            }
            j = j + 1;
        }
        proof {
            let last = visited_pixels(*r, wi, i as int, width as int);
            let next = visited_pixels(*r, wi, i + 1, 0);
            assert(last =~= next) by {
                assert forall|q: int| last.contains(q) implies next.contains(q) by {
                    let (a, b) = choose|a: int, b: int|
                        0 <= a < r.src.dim.height && 0 <= b < r.src.dim.width && (a < i || (a
                            == i && b < width)) && q == pix(*r, wi, a, b);
                    assert(0 <= a < r.src.dim.height && 0 <= b < r.src.dim.width && (a < i + 1 || (a == i + 1 && b < 0)) && q == pix(*r, wi, a, b));
                }
                assert forall|q: int| next.contains(q) implies last.contains(q) by {
                    let (a, b) = choose|a: int, b: int|
                        0 <= a < r.src.dim.height && 0 <= b < r.src.dim.width && (a < i + 1 || (a
                            == i + 1 && b < 0)) && q == pix(*r, wi, a, b);
                    assert(0 <= a < r.src.dim.height && 0 <= b < r.src.dim.width && (a < i || (a == i && b < width)) && q == pix(*r, wi, a, b));
                }
            }
        }
        i = i + 1;
    }
    proof {
        let all = visited_pixels(*r, wi, height as int, 0);
        assert(all =~= rule_pixels(*r, wi)) by {
            assert forall|q: int| all.contains(q) implies rule_pixels(*r, wi).contains(q) by {
                let (a, b) = choose|a: int, b: int|
                    0 <= a < r.src.dim.height && 0 <= b < r.src.dim.width && (a < height || (a
                        == height && b < 0)) && q == pix(*r, wi, a, b);
                assert(0 <= a < r.src.dim.height && 0 <= b < r.src.dim.width && q == pix(*r, wi, a, b));
            }
            assert forall|q: int| rule_pixels(*r, wi).contains(q) implies all.contains(q) by {
                let (a, b) = choose|a: int, b: int|
                    0 <= a < r.src.dim.height && 0 <= b < r.src.dim.width && q == pix(*r, wi, a, b);
                assert(0 <= a < r.src.dim.height && 0 <= b < r.src.dim.width && (a < height || (a == height && b < 0)) && q == pix(*r, wi, a, b));
            }
        }
    }
    any_found
}

} // verus!

verus! {

/// Every pixel of a rectangle within the buffer lies below the area.
proof fn lemma_rule_pixels_within(r: RuleRect, w: int, area: int)
    requires
        0 <= w,
        dest_within(r, w, area),
    ensures
        forall|p: int| #[trigger] rule_pixels(r, w).contains(p) ==> 0 <= p < area,
{
    assert forall|p: int| #[trigger] rule_pixels(r, w).contains(p) implies 0 <= p < area by {
        let (a, b) = choose|a: int, b: int|
            0 <= a < r.src.dim.height && 0 <= b < r.src.dim.width && p == pix(r, w, a, b);
        lemma_pix_bound(r, w, area, a, b);
    }
}

/// The covered set only holds pixels of opaque rectangles, all within the buffer.
proof fn lemma_cover_within(s: Seq<RuleRect>, w: int, area: int, k: int)
    requires
        0 <= w,
        0 <= k,
        forall|m: int|
            0 <= m < s.len() && (#[trigger] s[m]).alpha.class == AlphaClass::Opaque ==> dest_within(
                s[m],
                w,
                area,
            ),
    ensures
        forall|p: int| #[trigger] cover_from(s, w, k).contains(p) ==> 0 <= p < area,
    decreases s.len() - k,
{
    if k < s.len() {
        assert(cover_from(s, w, k) == step_cover(s[k], w, cover_from(s, w, k + 1)));
        lemma_cover_within(s, w, area, k + 1);
        if s[k].alpha.class == AlphaClass::Opaque {
            lemma_rule_pixels_within(s[k], w, area);
        }
    }
}

/// The target frame size and the prepared rules, with the strides of the source and the
/// target frame.
#[derive(Debug)]
pub struct Rules {
    rules: RuleData,
    blit_ctx: BlitContext,
    debug: bool,
}

impl Rules {
    /// The target frame size.
    pub closed spec fn spec_size(&self) -> Dim {
        self.rules.size
    }

    /// The prepared rules, in compositing order.
    pub closed spec fn spec_rects(&self) -> Seq<RuleRect> {
        self.rules.rects@
    }

    /// The strides of the source and target frames.
    pub closed spec fn spec_ctx(&self) -> BlitContext {
        self.blit_ctx
    }

    /// Drops every opaque rule whose destination pixels are all covered by opaque rules in
    /// front of it (later in compositing order); fails if some rule has an invalid opacity.
    fn eliminate_occlusions(&mut self) -> (r: Result<(), TranscodeError>)
        requires
            old(self).rules.size.width * old(self).rules.size.height <= u32::MAX,
            forall|m: int|
                0 <= m < old(self).rules.rects@.len() && (#[trigger] old(
                    self,
                ).rules.rects@[m]).alpha.class == AlphaClass::Opaque ==> dest_within(
                    old(self).rules.rects@[m],
                    old(self).rules.size.width as int,
                    old(self).rules.size.width * old(self).rules.size.height,
                ),
        ensures
            final(self).rules.size == old(self).rules.size,
            final(self).blit_ctx == old(self).blit_ctx,
            final(self).debug == old(self).debug,
            has_invalid_alpha(old(self).rules.rects@) ==> (r matches Err(TranscodeError::InvalidAlpha)
                && final(self).rules.rects@ == old(self).rules.rects@),
            !has_invalid_alpha(old(self).rules.rects@) ==> (r is Ok && final(self).rules.rects@
                == without_occluded(old(self).rules.rects@, old(self).rules.size.width as int)),
    {
        let ghost s = self.rules.rects@;
        let w = self.rules.size.width;
        let ghost wi = w as int;
        proof {
            crate::data::lemma_product_fits(self.rules.size.width as int, self.rules.size.height as int, 1);
        }
        let area = self.rules.size.calc_area(1);
        let ghost ai = area as int;
        let mut zbuf: Vec<bool> = vec![false; area as usize];
        let n = self.rules.rects.len();
        let mut del: Vec<bool> = vec![false; n];
        proof {
            lemma_cover_within(s, wi, ai, n as int);
            assert(cover_from(s, wi, n as int) =~= Set::<int>::empty());
        }
        let mut idx = n;
        while idx > 0
            invariant
                s == self.rules.rects@,
                n == s.len(),
                wi == self.rules.size.width as int,
                w == self.rules.size.width,
                ai == self.rules.size.width * self.rules.size.height,
                ai == area,
                zbuf@.len() == ai,
                del@.len() == n,
                0 <= idx <= n,
                forall|m: int|
                    0 <= m < s.len() && (#[trigger] s[m]).alpha.class == AlphaClass::Opaque
                        ==> dest_within(s[m], wi, ai),
                forall|p: int| 0 <= p < ai ==> (#[trigger] zbuf@[p] <==> cover_from(s, wi, idx as int).contains(p)),
                forall|k: int| idx <= k < n ==> #[trigger] del@[k] == occluded(s, wi, k),
                forall|k: int| 0 <= k < idx ==> !#[trigger] del@[k],
                forall|k: int| idx <= k < n ==> (#[trigger] s[k]).alpha.class != AlphaClass::Invalid,
            decreases idx,
        {
            idx = idx - 1;
            let r = self.rules.rects[idx];
            assert(r == s[idx as int]);
            proof {
                lemma_cover_within(s, wi, ai, idx + 1);
                lemma_cover_within(s, wi, ai, idx as int);
            }
            match r.alpha.class {
                AlphaClass::Invalid => {
                    assert(s[idx as int].alpha.class == AlphaClass::Invalid);
                    return Err(TranscodeError::InvalidAlpha);
                },
                AlphaClass::Translucent => {
                    assert(cover_from(s, wi, idx as int) == cover_from(s, wi, idx + 1));
                },
                AlphaClass::Opaque => {
                    let ghost z0 = zbuf@;
                    assert(s[idx as int].alpha.class == AlphaClass::Opaque);
                    assert(dest_within(s[idx as int], wi, ai));
                    assert(dest_within(r, w as int, zbuf@.len() as int));
                    let found = paint_rule(&mut zbuf, &r, w);
                    proof {
                        lemma_rule_pixels_within(r, wi, ai);
                        let cov1 = cover_from(s, wi, idx + 1);
                        assert(cover_from(s, wi, idx as int) == cov1.union(rule_pixels(r, wi)));
                        if !found {
                            assert forall|p: int| rule_pixels(r, wi).contains(p) implies cov1.contains(p) by {
                                assert(z0[p]);
                            }
                            assert(occluded(s, wi, idx as int));
                        } else {
                            let p = choose|p: int| #[trigger] rule_pixels(r, wi).contains(p) && 0 <= p < ai && !z0[p];
                            assert(!cov1.contains(p));
                            assert(!occluded(s, wi, idx as int));
                        }
                    }
                    if !found {
                        del.set(idx, true);
                    }
                },
            }
        }
        let mut kept: Vec<RuleRect> = Vec::new();
        let mut k: usize = 0;
        while k < n
            invariant
                s == self.rules.rects@,
                n == s.len(),
                del@.len() == n,
                0 <= k <= n,
                forall|m: int| 0 <= m < n ==> #[trigger] del@[m] == occluded(s, wi, m),
                kept@ == kept_prefix(s, wi, k as int),
            decreases n - k,
        {
            if !del[k] {
                kept.push(self.rules.rects[k]);
            }
            k = k + 1;
        }
        proof {
            assert(!has_invalid_alpha(s));
        }
        self.rules.rects = kept;
        Ok(())
    }
}

} // verus!

verus! {

/// The elements of the stable sort are elements of the input.
pub proof fn lemma_sort_spec_members(s: Seq<RuleRect>)
    ensures
        forall|m: int| 0 <= m < sort_spec(s).len() ==> s.contains(#[trigger] sort_spec(s)[m]),
        forall|m: int| 0 <= m < s.len() ==> sort_spec(s).contains(#[trigger] s[m]),
{
    broadcast use vstd::seq_lib::group_to_multiset_ensures;
    lemma_sort_spec_props(s);
    assert forall|m: int| 0 <= m < sort_spec(s).len() implies s.contains(#[trigger] sort_spec(s)[m]) by {
        assert(sort_spec(s).contains(sort_spec(s)[m]));
        assert(sort_spec(s).to_multiset().count(sort_spec(s)[m]) > 0);
    }
    assert forall|m: int| 0 <= m < s.len() implies sort_spec(s).contains(#[trigger] s[m]) by {
        assert(s.contains(s[m]));
        assert(s.to_multiset().count(s[m]) > 0);
    }
}

/// The rules kept from a sorted sequence stay in order, and each is one of its rules.
proof fn lemma_kept_prefix(t: Seq<RuleRect>, w: int, m: int)
    requires
        0 <= m <= t.len(),
        rules_sorted(t),
    ensures
        rules_sorted(kept_prefix(t, w, m)),
        forall|i: int|
            0 <= i < kept_prefix(t, w, m).len() ==> exists|j: int|
                0 <= j < m && #[trigger] kept_prefix(t, w, m)[i] == t[j],
    decreases m,
{
    if m > 0 {
        lemma_kept_prefix(t, w, m - 1);
        let k = kept_prefix(t, w, m - 1);
        if !occluded(t, w, m - 1) {
            let r = k.push(t[m - 1]);
            assert forall|i: int, j: int| 0 <= i < j < r.len() implies key_le(#[trigger] r[i], #[trigger] r[j]) by {
                if j == k.len() {
                    let jj = choose|jj: int| 0 <= jj < m - 1 && k[i] == t[jj];
                    assert(key_le(t[jj], t[m - 1]));
                }
            }
            assert forall|i: int| 0 <= i < r.len() implies exists|j: int| 0 <= j < m && #[trigger] r[i] == t[j] by {
                if i < k.len() {
                    let jj = choose|jj: int| 0 <= jj < m - 1 && k[i] == t[jj];
                    assert(r[i] == t[jj]);
                } else {
                    assert(r[i] == t[m - 1]);
                }
            }
        }
    }
}

/// Preparing rules puts them in compositing order and keeps only rules of the document;
/// without occlusion it keeps every rule of the document.
pub proof fn lemma_prepared_rules(s: Seq<RuleRect>, w: int, occlude: bool)
    ensures
        rules_sorted(prepared_rects(s, w, occlude)),
        forall|i: int|
            0 <= i < prepared_rects(s, w, occlude).len() ==> s.contains(
                #[trigger] prepared_rects(s, w, occlude)[i],
            ),
        !occlude ==> prepared_rects(s, w, occlude).to_multiset() == s.to_multiset(),
{
    lemma_sort_spec_props(s);
    lemma_sort_spec_members(s);
    let t = sort_spec(s);
    if occlude {
        lemma_kept_prefix(t, w, t.len() as int);
        let p = prepared_rects(s, w, occlude);
        assert forall|i: int| 0 <= i < p.len() implies s.contains(#[trigger] p[i]) by {
            let j = choose|j: int| 0 <= j < t.len() && p[i] == t[j];
            assert(s.contains(t[j]));
        }
    }
}

/// Whether every opaque rule of `s` has its destination within a target of size `size`.
pub open spec fn opaque_within(s: Seq<RuleRect>, size: Dim) -> bool {
    forall|m: int|
        0 <= m < s.len() && (#[trigger] s[m]).alpha.class == AlphaClass::Opaque ==> dest_within(
            s[m],
            size.width as int,
            size.width * size.height,
        )
}

/// What preparing `s` for a target of row length `w` leaves: the stable sort, without the
/// occluded rules when occlusion is asked for.
pub open spec fn prepared_rects(s: Seq<RuleRect>, w: int, occlude: bool) -> Seq<RuleRect> {
    if occlude {
        without_occluded(sort_spec(s), w)
    } else {
        sort_spec(s)
    }
}

impl Rules {
    /// Sorts the rules into compositing order and, when asked, drops occluded opaque rules.
    fn pre_process_rules(&mut self, occlude_opaque_layers: bool) -> (r: Result<(), TranscodeError>)
        requires
            occlude_opaque_layers ==> old(self).rules.size.width * old(self).rules.size.height
                <= u32::MAX,
            occlude_opaque_layers ==> opaque_within(old(self).rules.rects@, old(self).rules.size),
        ensures
            final(self).rules.size == old(self).rules.size,
            final(self).blit_ctx == old(self).blit_ctx,
            final(self).debug == old(self).debug,
            old(self).rules.rects@.len() > u32::MAX ==> r matches Err(TranscodeError::TooManyRules),
            old(self).rules.rects@.len() <= u32::MAX && occlude_opaque_layers && has_invalid_alpha(
                old(self).rules.rects@,
            ) ==> r matches Err(TranscodeError::InvalidAlpha),
            old(self).rules.rects@.len() <= u32::MAX && !(occlude_opaque_layers && has_invalid_alpha(
                old(self).rules.rects@,
            )) ==> (r is Ok && final(self).rules.rects@ == prepared_rects(
                old(self).rules.rects@,
                old(self).rules.size.width as int,
                occlude_opaque_layers,
            )),
    {
        let ghost s = self.rules.rects@;
        if self.rules.rects.len() > u32::MAX as usize {
            return Err(TranscodeError::TooManyRules);
        }
        self.sort_rules();
        proof {
            lemma_sort_spec_members(s);
            let t = sort_spec(s);
            if has_invalid_alpha(s) {
                let k = choose|k: int| 0 <= k < s.len() && (#[trigger] s[k]).alpha.class == AlphaClass::Invalid;
                assert(t.contains(s[k]));
                let m = choose|m: int| 0 <= m < t.len() && t[m] == s[k];
                assert(has_invalid_alpha(t));
            } else {
                if has_invalid_alpha(t) {
                    let k = choose|k: int| 0 <= k < t.len() && (#[trigger] t[k]).alpha.class == AlphaClass::Invalid;
                    assert(s.contains(t[k]));
                }
            }
            if occlude_opaque_layers {
                assert forall|m: int|
                    0 <= m < t.len() && (#[trigger] t[m]).alpha.class == AlphaClass::Opaque implies dest_within(
                        t[m],
                        self.rules.size.width as int,
                        self.rules.size.width * self.rules.size.height,
                    ) by {
                    assert(s.contains(t[m]));
                    let k = choose|k: int| 0 <= k < s.len() && s[k] == t[m];
                }
            }
        }
        if occlude_opaque_layers {
            self.eliminate_occlusions()
        } else {
            Ok(())
        }
    }

    /// Sorts the rules into compositing order: z-index, then source column, then source row.
    fn sort_rules(&mut self)
        ensures
            final(self).rules.size == old(self).rules.size,
            final(self).blit_ctx == old(self).blit_ctx,
            final(self).debug == old(self).debug,
            final(self).rules.rects@ == sort_spec(old(self).rules.rects@),
    {
        sort_rects(&mut self.rules.rects);
    }

    /// The target frame size.
    pub fn get_tgt_dim(&self) -> (r: Dim)
        ensures
            r == self.spec_size(),
    {
        self.rules.size
    }
}

impl PartialRules {
    /// Whether the target size and the opaque rules can be prepared: the target row stride
    /// must fit in 32 bits and, when occlusion is asked for, so must the target area, and
    /// every opaque rule must lie within the target.
    pub open spec fn buildable(&self) -> bool {
        &&& self.spec_size().width * 3 <= u32::MAX
        &&& self.spec_occlude() ==> self.spec_size().width * self.spec_size().height <= u32::MAX
        &&& self.spec_occlude() ==> opaque_within(self.spec_rects(), self.spec_size())
    }

    /// The error `build` reports for these rules, if any: a zero target width, more rules
    /// than a `u32` counts, or, when occlusion is asked for, an invalid opacity.
    pub open spec fn build_error(&self) -> Option<TranscodeError> {
        if self.spec_size().width == 0 {
            Some(TranscodeError::InvalidRules)
        } else if self.spec_rects().len() > u32::MAX {
            Some(TranscodeError::TooManyRules)
        } else if self.spec_occlude() && has_invalid_alpha(self.spec_rects()) {
            Some(TranscodeError::InvalidAlpha)
        } else {
            None
        }
    }

    /// Tells whether `build` can be called on these rules.
    pub fn can_build(&self) -> (r: bool)
        ensures
            r == self.buildable(),
    {
        let size = self.rules.size;
        let w: u128 = size.width as u128;
        let h: u128 = size.height as u128;
        if w * 3 > u32::MAX as u128 {
            return false;
        }
        if !self.occlude_opaque_layers {
            return true;
        }
        proof {
            assert(w * h <= u32::MAX * u32::MAX) by (nonlinear_arith)
                requires
                    w <= u32::MAX,
                    h <= u32::MAX,
            ;
        }
        if w * h > u32::MAX as u128 {
            return false;
        }
        let area: u128 = w * h;
        let n = self.rules.rects.len();
        let mut k: usize = 0;
        while k < n
            invariant
                n == self.rules.rects@.len(),
                self.occlude_opaque_layers,
                0 <= k <= n,
                w == size.width,
                size == self.rules.size,
                area == size.width * size.height,
                area <= u32::MAX,
                forall|m: int|
                    0 <= m < k && (#[trigger] self.rules.rects@[m]).alpha.class == AlphaClass::Opaque
                        ==> dest_within(self.rules.rects@[m], size.width as int, area as int),
            decreases n - k,
        {
            let r = self.rules.rects[k];
            if r.alpha.class == AlphaClass::Opaque && r.src.dim.width != 0 && r.src.dim.height != 0 {
                let last_row: u128 = r.dest.y as u128 + r.src.dim.height as u128 - 1;
                proof {
                    assert(last_row * w <= (2 * u32::MAX as int) * u32::MAX) by (nonlinear_arith)
                        requires
                            last_row <= 2 * u32::MAX,
                            w <= u32::MAX,
                    ;
                }
                let end: u128 = last_row * w + r.dest.x as u128 + r.src.dim.width as u128;
                if end > area {
                    proof {
                        assert(r == self.rules.rects@[k as int]);
                        assert(!dest_within(self.rules.rects@[k as int], size.width as int, area as int));
                        assert(self.spec_rects()[k as int] == r);
                        assert(self.spec_occlude());
                        assert(!opaque_within(self.spec_rects(), self.spec_size()));
                    }
                    return false;
                }
            }
            k = k + 1;
        }
        true
    }

    /// Binds the rules to a validated source video: computes the strides, sorts the rules into
    /// compositing order and, when asked, drops opaque rules hidden behind other opaque rules.
    pub fn build(self, meta_header: MetaHeader) -> (r: Result<Rules, TranscodeError>)
        requires
            self.buildable(),
        ensures
            self.spec_size().width == 0 ==> r matches Err(TranscodeError::InvalidRules),
            self.spec_size().width != 0 && self.spec_rects().len() > u32::MAX ==> r matches Err(
                TranscodeError::TooManyRules,
            ),
            self.spec_size().width != 0 && self.spec_rects().len() <= u32::MAX && self.spec_occlude()
                && has_invalid_alpha(self.spec_rects()) ==> r matches Err(TranscodeError::InvalidAlpha),
            self.spec_size().width != 0 && self.spec_rects().len() <= u32::MAX && !(self.spec_occlude()
                && has_invalid_alpha(self.spec_rects())) ==> {
                &&& r matches Ok(rules)
                &&& rules.spec_size() == self.spec_size()
                &&& rules.spec_rects() == prepared_rects(
                    self.spec_rects(),
                    self.spec_size().width as int,
                    self.spec_occlude(),
                )
                &&& rules.spec_ctx() == (BlitContext {
                    src_width: (3 * meta_header.spec_dim().width) as u32,
                    tgt_width: (3 * self.spec_size().width) as u32,
                })
            },
    {
        let src_dim = meta_header.dim();
        let blit_ctx = match BlitContext::new(src_dim, self.rules.size) {
            Ok(c) => c,
            Err(e) => {
                return Err(e);
            },
        };
        let mut rules = Rules { rules: self.rules, blit_ctx, debug: self.debug };
        match rules.pre_process_rules(self.occlude_opaque_layers) {
            Ok(()) => Ok(rules),
            Err(e) => Err(e),
        }
    }
}

} // verus!

verus! {

// ---------------------------------------------------------------------------------------
// Compositing plan

/// One row of a rule: `len` bytes from `src_start` of the source frame are blended with
/// opacity `alpha` into the target frame from `tgt_start`.
#[derive(Debug, Copy, Clone, PartialEq, Eq, Structural)]
pub struct BlitSpan {
    pub src_start: usize,
    pub tgt_start: usize,
    pub len: usize,
    pub alpha: Alpha,
}

/// Byte offset of the upper-left pixel `ul` in a frame with rows of `stride` bytes.
pub open spec fn corner_offset(stride: int, ul: Pos) -> int {
    stride * ul.y + ul.x * 3
}

/// Whether a `dim`-sized rectangle at `ul` can be addressed in a frame of `len` bytes with
/// rows of `stride` bytes: the corner offset and the row length fit in 32 bits, and the last
/// byte of the last row lies within the frame.
pub open spec fn blit_fits(stride: int, ul: Pos, dim: Dim, len: int) -> bool {
    &&& stride * ul.y <= u32::MAX
    &&& ul.x * 3 <= u32::MAX
    &&& corner_offset(stride, ul) <= u32::MAX
    &&& dim.width * 3 <= u32::MAX
    &&& (dim.height == 0 || corner_offset(stride, ul) + (dim.height - 1) * stride + dim.width * 3
        <= len)
}

/// Whether every rule can be composited from a source frame of `src_len` bytes into a
/// target frame of `tgt_len` bytes.
pub open spec fn rules_fit(ctx: BlitContext, s: Seq<RuleRect>, src_len: int, tgt_len: int) -> bool {
    forall|m: int|
        0 <= m < s.len() ==> blit_fits(ctx.src_width as int, (#[trigger] s[m]).src.ul, s[m].src.dim, src_len)
            && blit_fits(ctx.tgt_width as int, s[m].dest, s[m].src.dim, tgt_len)
}

/// The rows of rule `r`, top to bottom.
pub open spec fn rule_spans(ctx: BlitContext, r: RuleRect) -> Seq<BlitSpan> {
    Seq::new(
        r.src.dim.height as nat,
        |i: int|
            BlitSpan {
                src_start: (corner_offset(ctx.src_width as int, r.src.ul) + i * ctx.src_width) as usize,
                tgt_start: (corner_offset(ctx.tgt_width as int, r.dest) + i * ctx.tgt_width) as usize,
                len: (r.src.dim.width * 3) as usize,
                alpha: r.alpha,
            },
    )
}

/// The rows of all rules, rule after rule in compositing order.
pub open spec fn plan_spec(ctx: BlitContext, s: Seq<RuleRect>) -> Seq<BlitSpan>
    decreases s.len(),
{
    if s.len() == 0 {
        Seq::empty()
    } else {
        plan_spec(ctx, s.drop_last()) + rule_spans(ctx, s.last())
    }
}

/// The row at `i` of a rectangle that fits starts and ends within the frame.
pub proof fn lemma_row_within(stride: int, ul: Pos, dim: Dim, len: int, i: int)
    requires
        0 <= stride,
        blit_fits(stride, ul, dim, len),
        0 <= i < dim.height,
    ensures
        0 <= corner_offset(stride, ul) + i * stride,
        corner_offset(stride, ul) + i * stride + dim.width * 3 <= len,
{
    assert(0 <= i * stride <= (dim.height - 1) * stride) by (nonlinear_arith)
        requires
            0 <= i <= dim.height - 1,
            0 <= stride,
    ;
    assert(0 <= stride * ul.y) by (nonlinear_arith)
        requires
            0 <= stride,
            0 <= ul.y,
    ;
}

impl Rules {
    /// Tells whether every rule can be composited between frames of the given lengths.
    pub fn fits_frames(&self, src_len: usize, tgt_len: usize) -> (r: bool)
        ensures
            r == rules_fit(self.spec_ctx(), self.spec_rects(), src_len as int, tgt_len as int),
    {
        let n = self.rules.rects.len();
        let mut k: usize = 0;
        while k < n
            invariant
                n == self.rules.rects@.len(),
                0 <= k <= n,
                forall|m: int|
                    0 <= m < k ==> blit_fits(self.blit_ctx.src_width as int, (#[trigger] self.rules.rects@[m]).src.ul, self.rules.rects@[m].src.dim, src_len as int)
                        && blit_fits(self.blit_ctx.tgt_width as int, self.rules.rects@[m].dest, self.rules.rects@[m].src.dim, tgt_len as int),
            decreases n - k,
        {
            let r = self.rules.rects[k];
            let a = fits_exec(self.blit_ctx.src_width, r.src.ul, r.src.dim, src_len);
            let b = fits_exec(self.blit_ctx.tgt_width, r.dest, r.src.dim, tgt_len);
            if !(a && b) {
                assert(r == self.rules.rects@[k as int]);
                return false;
            }
            k = k + 1;
        }
        true
    }

    /// The rows to blend for one frame: for each rule in compositing order, its rows from top
    /// to bottom. Blending them in order into a zeroed target frame composites the frame.
    pub fn frame_plan(&self, src_len: usize, tgt_len: usize) -> (plan: Vec<BlitSpan>)
        requires
            rules_fit(self.spec_ctx(), self.spec_rects(), src_len as int, tgt_len as int),
        ensures
            plan@ == plan_spec(self.spec_ctx(), self.spec_rects()),
            forall|k: int|
                0 <= k < plan@.len() ==> (#[trigger] plan@[k]).src_start + plan@[k].len <= src_len
                    && plan@[k].tgt_start + plan@[k].len <= tgt_len,
    {
        let ghost s = self.rules.rects@;
        let ctx = self.blit_ctx;
        let mut plan: Vec<BlitSpan> = Vec::new();
        let n = self.rules.rects.len();
        let mut k: usize = 0;
        while k < n
            invariant
                n == s.len(),
                s == self.rules.rects@,
                ctx == self.blit_ctx,
                0 <= k <= n,
                rules_fit(ctx, s, src_len as int, tgt_len as int),
                plan@ == plan_spec(ctx, s.subrange(0, k as int)),
                forall|q: int|
                    0 <= q < plan@.len() ==> (#[trigger] plan@[q]).src_start + plan@[q].len <= src_len
                        && plan@[q].tgt_start + plan@[q].len <= tgt_len,
            decreases n - k,
        {
            let r = self.rules.rects[k];
            assert(r == s[k as int]);
            let ghost base = plan@;
            let src_stride = ctx.src_width as usize;
            let tgt_stride = ctx.tgt_width as usize;
            let src_pos0 = (ctx.src_width * r.src.ul.y + r.src.ul.x * BYTES_PER_PIXEL) as usize;
            let tgt_pos0 = (ctx.tgt_width * r.dest.y + r.dest.x * BYTES_PER_PIXEL) as usize;
            let cpy_len = r.src.dim.calc_stride(BYTES_PER_PIXEL) as usize;
            let h = r.src.dim.height;
            let mut i: u32 = 0;
            while i < h
                invariant
                    h == r.src.dim.height,
                    blit_fits(ctx.src_width as int, r.src.ul, r.src.dim, src_len as int),
                    blit_fits(ctx.tgt_width as int, r.dest, r.src.dim, tgt_len as int),
                    src_stride == ctx.src_width,
                    tgt_stride == ctx.tgt_width,
                    src_pos0 == corner_offset(ctx.src_width as int, r.src.ul),
                    tgt_pos0 == corner_offset(ctx.tgt_width as int, r.dest),
                    cpy_len == r.src.dim.width * 3,
                    0 <= i <= h,
                    plan@ == base + rule_spans(ctx, r).subrange(0, i as int),
                    forall|q: int|
                        0 <= q < plan@.len() ==> (#[trigger] plan@[q]).src_start + plan@[q].len <= src_len
                            && plan@[q].tgt_start + plan@[q].len <= tgt_len,
                decreases h - i,
            {
                proof {
                    lemma_row_within(ctx.src_width as int, r.src.ul, r.src.dim, src_len as int, i as int);
                    lemma_row_within(ctx.tgt_width as int, r.dest, r.src.dim, tgt_len as int, i as int);
                }
                let src_start = src_pos0 + (i as usize) * src_stride;
                let tgt_start = tgt_pos0 + (i as usize) * tgt_stride;
                let span = BlitSpan { src_start, tgt_start, len: cpy_len, alpha: r.alpha };
                plan.push(span);
                proof {
                    assert(span == rule_spans(ctx, r)[i as int]);
                    assert(plan@ =~= base + rule_spans(ctx, r).subrange(0, i + 1));
                }
                i = i + 1;
            }
            proof {
                assert(rule_spans(ctx, r).subrange(0, h as int) =~= rule_spans(ctx, r));
                let t = s.subrange(0, k + 1);
                assert(t.drop_last() =~= s.subrange(0, k as int));
                assert(t.last() == r);
            }
            k = k + 1;
        }
        assert(s.subrange(0, n as int) =~= s);
        plan
    }
}

// ---------------------------------------------------------------------------------------
// Compositing a frame

/// Whether `after` is `before` with the first `n` bytes of `span` blended by `blend`: each
/// of those target bytes is a result of `blend` on the source byte, the target byte before
/// and the span's opacity bits; every other byte is unchanged.
pub open spec fn span_blended<F: Fn(u8, u8, u32) -> u8>(
    before: Seq<u8>,
    after: Seq<u8>,
    src: Seq<u8>,
    span: BlitSpan,
    n: int,
    blend: F,
) -> bool {
    &&& after.len() == before.len()
    &&& forall|p: int|
        0 <= p < after.len() ==> if span.tgt_start <= p < span.tgt_start + n {
            call_ensures(
                blend,
                (src[span.src_start + (p - span.tgt_start)], before[p], span.alpha.bits),
                #[trigger] after[p],
            )
        } else {
            after[p] == before[p]
        }
}

/// Whether `after` results from blending the spans of `plan`, in order, into `before`.
pub open spec fn composited<F: Fn(u8, u8, u32) -> u8>(
    plan: Seq<BlitSpan>,
    src: Seq<u8>,
    before: Seq<u8>,
    after: Seq<u8>,
    blend: F,
) -> bool
    decreases plan.len(),
{
    if plan.len() == 0 {
        after == before
    } else {
        exists|mid: Seq<u8>|
            composited(plan.drop_last(), src, before, mid, blend) && #[trigger] span_blended(
                mid,
                after,
                src,
                plan.last(),
                plan.last().len as int,
                blend,
            )
    }
}

/// A frame of `n` zero bytes.
pub open spec fn zero_frame(n: nat) -> Seq<u8> {
    Seq::new(n, |i: int| 0u8)
}

/// Composites one frame: clears the target, then blends the spans of `plan` in order, each
/// target byte of a span with the source byte beside it, through `blend`, which receives
/// the source byte, the target byte and the opacity bits of the span.
pub fn composite<F: Fn(u8, u8, u32) -> u8>(plan: &Vec<BlitSpan>, src: &[u8], tgt: &mut [u8], blend: F)
    requires
        forall|k: int|
            0 <= k < plan@.len() ==> (#[trigger] plan@[k]).src_start + plan@[k].len <= src@.len()
                && plan@[k].tgt_start + plan@[k].len <= old(tgt)@.len(),
        forall|a: u8, b: u8, c: u32| call_requires(blend, (a, b, c)),
    ensures
        composited(plan@, src@, zero_frame(old(tgt)@.len()), final(tgt)@, blend),
{
    let tlen = tgt.len();
    let slen = src.len();
    let mut z: usize = 0;
    while z < tlen
        invariant
            tgt@.len() == tlen,
            0 <= z <= tlen,
            forall|q: int| 0 <= q < z ==> tgt@[q] == 0u8,
        decreases tlen - z,
    {
        tgt[z] = 0u8;
        z = z + 1;
    }
    assert(tgt@ =~= zero_frame(tlen as nat));
    let ghost zeros = tgt@;
    let n = plan.len();
    let mut k: usize = 0;
    while k < n
        invariant
            n == plan@.len(),
            0 <= k <= n,
            tgt@.len() == tlen,
            slen == src@.len(),
            zeros == zero_frame(tlen as nat),
            forall|q: int|
                0 <= q < plan@.len() ==> (#[trigger] plan@[q]).src_start + plan@[q].len <= src@.len()
                    && plan@[q].tgt_start + plan@[q].len <= tlen,
            forall|a: u8, b: u8, c: u32| call_requires(blend, (a, b, c)),
            composited(plan@.subrange(0, k as int), src@, zeros, tgt@, blend),
        decreases n - k,
    {
        let span = plan[k];
        assert(span == plan@[k as int]);
        let ghost mid = tgt@;
        let mut i: usize = 0;
        while i < span.len
            invariant
                k < n,
                n == plan@.len(),
                slen == src@.len(),
                span == plan@[k as int],
                span.src_start + span.len <= src@.len(),
                span.tgt_start + span.len <= tlen,
                tgt@.len() == tlen,
                mid.len() == tlen,
                0 <= i <= span.len,
                forall|a: u8, b: u8, c: u32| call_requires(blend, (a, b, c)),
                span_blended(mid, tgt@, src@, span, i as int, blend),
            decreases span.len - i,
        {
            let t = span.tgt_start + i;
            let s = span.src_start + i;
            let old_d = tgt[t];
            assert(old_d == mid[t as int]);
            let d = blend(src[s], old_d, span.alpha.bits);
            let ghost pre = tgt@;
            tgt[t] = d;
            proof {
                assert forall|p: int| 0 <= p < tgt@.len() implies if span.tgt_start <= p < span.tgt_start + (i + 1) {
                    call_ensures(
                        blend,
                        (src@[span.src_start + (p - span.tgt_start)], mid[p], span.alpha.bits),
                        #[trigger] tgt@[p],
                    )
                } else {
                    tgt@[p] == mid[p]
                } by {
                    if p != t {
                        assert(tgt@[p] == pre[p]);
                    }
                }
            }
            i = i + 1;
        }
        proof {
            let sub = plan@.subrange(0, k + 1);
            assert(sub.drop_last() =~= plan@.subrange(0, k as int));
            assert(sub.last() == span);
            assert(span_blended(mid, tgt@, src@, sub.last(), sub.last().len as int, blend));
            assert(composited(sub.drop_last(), src@, zeros, mid, blend));
        }
        k = k + 1;
    }
    assert(plan@.subrange(0, n as int) =~= plan@);
}

impl Rules {
    /// Composites one frame of the source into the target with the rules: the target is
    /// cleared, then the rows of every rule are blended in compositing order through
    /// `blend`, which receives the source byte, the target byte and the rule's opacity bits.
    pub fn process_frame<F: Fn(u8, u8, u32) -> u8>(&self, fr_num: u32, src_frame: &[u8], tgt_frame: &mut [u8], blend: F) -> (r: Result<(), TranscodeError>)
        requires
            rules_fit(self.spec_ctx(), self.spec_rects(), src_frame@.len() as int, old(tgt_frame)@.len() as int),
            forall|a: u8, b: u8, c: u32| call_requires(blend, (a, b, c)),
        ensures
            r is Ok,
            composited(
                plan_spec(self.spec_ctx(), self.spec_rects()),
                src_frame@,
                zero_frame(old(tgt_frame)@.len()),
                final(tgt_frame)@,
                blend,
            ),
    {
        let plan = self.frame_plan(src_frame.len(), tgt_frame.len());
        composite(&plan, src_frame, tgt_frame, blend);
        Ok(())
    }
}

/// Tells whether a rectangle can be addressed in a frame; see `blit_fits`.
fn fits_exec(stride: u32, ul: Pos, dim: Dim, len: usize) -> (r: bool)
    ensures
        r == blit_fits(stride as int, ul, dim, len as int),
{
    let stride = stride as u128;
    proof {
        assert(stride * ul.y <= u32::MAX * u32::MAX) by (nonlinear_arith)
            requires
                stride <= u32::MAX,
                ul.y <= u32::MAX,
        ;
    }
    let a = stride * ul.y as u128;
    if a > u32::MAX as u128 {
        return false;
    }
    let b = ul.x as u128 * 3;
    if b > u32::MAX as u128 {
        return false;
    }
    if a + b > u32::MAX as u128 {
        return false;
    }
    if dim.width as u128 * 3 > u32::MAX as u128 {
        return false;
    }
    if dim.height == 0 {
        return true;
    }
    proof {
        assert((dim.height - 1) * stride <= u32::MAX * u32::MAX) by (nonlinear_arith)
            requires
                stride <= u32::MAX,
                1 <= dim.height <= u32::MAX,
        ;
    }
    let last = a + b + (dim.height as u128 - 1) * stride + dim.width as u128 * 3;
    last <= len as u128
}


/// The byte at column `c` of row `r` of a rectangle whose upper-left pixel is `ul`, in a
/// frame with rows of `stride` bytes.
pub open spec fn rect_byte(stride: int, ul: Pos, r: int, c: int) -> int {
    stride * ul.y + ul.x * 3 + r * stride + c
}

/// A rectangle with at least one pixel per row, whose corner and row length can be
/// addressed, fits a frame exactly when every byte of every one of its rows lies inside
/// the frame; its last byte may be the frame's last.
pub proof fn lemma_fits_iff_rows_inside(stride: u32, ul: Pos, dim: Dim, len: usize)
    requires
        dim.width > 0,
        stride * ul.y <= u32::MAX,
        ul.x * 3 <= u32::MAX,
        stride * ul.y + ul.x * 3 <= u32::MAX,
        dim.width * 3 <= u32::MAX,
    ensures
        blit_fits(stride as int, ul, dim, len as int) <==> (forall|r: int, c: int|
            0 <= r < dim.height && 0 <= c < dim.width * 3 ==> #[trigger] rect_byte(stride as int, ul, r, c)
                < len),
{
    let base = stride * ul.y + ul.x * 3;
    if blit_fits(stride as int, ul, dim, len as int) {
        assert forall|r: int, c: int| 0 <= r < dim.height && 0 <= c < dim.width * 3 implies #[trigger] rect_byte(
            stride as int,
            ul,
            r,
            c,
        ) < len by {
            assert(r * stride <= (dim.height - 1) * stride) by (nonlinear_arith)
                requires
                    0 <= r <= dim.height - 1,
                    0 <= stride,
            ;
        }
    }
    if dim.height > 0 && (forall|r: int, c: int|
        0 <= r < dim.height && 0 <= c < dim.width * 3 ==> #[trigger] rect_byte(stride as int, ul, r, c) < len) {
        assert(rect_byte(stride as int, ul, dim.height - 1, dim.width * 3 - 1) < len);
    }
}

/// A rule that covers a whole frame, from its upper-left pixel with the frame's own size,
/// fits a frame of that size.
pub proof fn lemma_full_frame_rule_fits(width: u32, height: u32)
    requires
        width * 3 <= u32::MAX,
    ensures
        blit_fits(width * 3, Pos { x: 0, y: 0 }, Dim { width, height }, width * height * 3),
{
    assert((height - 1) * (width * 3) + width * 3 == width * height * 3) by (nonlinear_arith);
}

} // verus!
