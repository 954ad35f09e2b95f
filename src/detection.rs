//! Post-processing of the UI-element detector's output: reading the box and
//! score tensors, corner-box conversion, the confidence filter, ordering by
//! confidence, and greedy non-maximum suppression.
//!
//! Numbers are fixed point. Model boxes are in thousandths of an input pixel;
//! detections are in millionths of the image; confidences and thresholds in
//! millionths.

use vstd::prelude::*;

verus! {

/// One unit of a normalized coordinate, of a confidence, or of an overlap
/// threshold.
pub const UNIT: i64 = 1_000_000;

/// Largest magnitude of a detection field that the overlap arithmetic takes.
pub const FIELD_LIMIT: i64 = 0x4_0000_0000_0000;

/// A detected element: top-left corner and size in millionths of the image,
/// confidence in millionths.
#[derive(Debug, Clone, Copy, PartialEq, Eq, Structural)]
pub struct Detection {
    pub x: i64,
    pub y: i64,
    pub width: i64,
    pub height: i64,
    pub confidence: i32,
}

pub open spec fn imax(a: int, b: int) -> int {
    if a >= b { a } else { b }
}

pub open spec fn imin(a: int, b: int) -> int {
    if a <= b { a } else { b }
}

pub open spec fn bounded(d: Detection) -> bool {
    &&& -FIELD_LIMIT <= d.x <= FIELD_LIMIT
    &&& -FIELD_LIMIT <= d.y <= FIELD_LIMIT
    &&& -FIELD_LIMIT <= d.width <= FIELD_LIMIT
    &&& -FIELD_LIMIT <= d.height <= FIELD_LIMIT
}

pub open spec fn all_bounded(ds: Seq<Detection>) -> bool {
    forall|i: int| 0 <= i < ds.len() ==> bounded(#[trigger] ds[i])
}

pub open spec fn inter_w(a: Detection, b: Detection) -> int {
    imax(imin(a.x + a.width, b.x + b.width) - imax(a.x as int, b.x as int), 0)
}

pub open spec fn inter_h(a: Detection, b: Detection) -> int {
    imax(imin(a.y + a.height, b.y + b.height) - imax(a.y as int, b.y as int), 0)
}

pub open spec fn inter_area(a: Detection, b: Detection) -> int {
    inter_w(a, b) * inter_h(a, b)
}

pub open spec fn area(a: Detection) -> int {
    a.width * a.height
}

pub open spec fn union_area(a: Detection, b: Detection) -> int {
    area(a) + area(b) - inter_area(a, b)
}

/// Intersection over union as a fraction `(num, den)`; `(0, 1)` when the
/// union has no area.
pub open spec fn iou_ratio(a: Detection, b: Detection) -> (int, int) {
    if union_area(a, b) <= 0 {
        (0, 1)
    } else {
        (inter_area(a, b), union_area(a, b))
    }
}

/// The overlap of `a` and `b` exceeds `threshold` millionths.
pub open spec fn overlaps(a: Detection, b: Detection, threshold: int) -> bool {
    iou_ratio(a, b).0 * UNIT > threshold * iou_ratio(a, b).1
}

/// Intersection over union of two detections, as a fraction.
pub fn iou(a: &Detection, b: &Detection) -> (r: (i128, i128))
    requires
        bounded(*a),
        bounded(*b),
    ensures
        r.0 == iou_ratio(*a, *b).0,
        r.1 == iou_ratio(*a, *b).1,
        0 <= r.0 <= 0x100_0000_0000_0000_0000_0000_0000,
        -0x200_0000_0000_0000_0000_0000_0000 <= r.1 <= 0x200_0000_0000_0000_0000_0000_0000,
{
    let ax2 = a.x as i128 + a.width as i128;
    let ay2 = a.y as i128 + a.height as i128;
    let bx2 = b.x as i128 + b.width as i128;
    let by2 = b.y as i128 + b.height as i128;
    let x1 = if a.x >= b.x { a.x as i128 } else { b.x as i128 };
    let y1 = if a.y >= b.y { a.y as i128 } else { b.y as i128 };
    let x2 = if ax2 <= bx2 { ax2 } else { bx2 };
    let y2 = if ay2 <= by2 { ay2 } else { by2 };
    let w = if x2 - x1 >= 0 { x2 - x1 } else { 0 };
    let h = if y2 - y1 >= 0 { y2 - y1 } else { 0 };
    assert(0 <= w * h <= 0x100_0000_0000_0000_0000_0000_0000) by (nonlinear_arith)
        requires
            0 <= w <= 0x10_0000_0000_0000,
            0 <= h <= 0x10_0000_0000_0000,
    ;
    assert(-0x10_0000_0000_0000_0000_0000_0000 <= a.width * a.height
        <= 0x10_0000_0000_0000_0000_0000_0000) by (nonlinear_arith)
        requires
            -0x4_0000_0000_0000 <= a.width <= 0x4_0000_0000_0000,
            -0x4_0000_0000_0000 <= a.height <= 0x4_0000_0000_0000,
    ;
    assert(-0x10_0000_0000_0000_0000_0000_0000 <= b.width * b.height
        <= 0x10_0000_0000_0000_0000_0000_0000) by (nonlinear_arith)
        requires
            -0x4_0000_0000_0000 <= b.width <= 0x4_0000_0000_0000,
            -0x4_0000_0000_0000 <= b.height <= 0x4_0000_0000_0000,
    ;
    let inter = w * h;
    let area_a = a.width as i128 * a.height as i128;
    let area_b = b.width as i128 * b.height as i128;
    let union = area_a + area_b - inter;
    if union <= 0 {
        (0, 1)
    } else {
        (inter, union)
    }
}

/// Whether the overlap of `a` and `b` exceeds `threshold` millionths.
pub fn overlap_exceeds(a: &Detection, b: &Detection, threshold: i64) -> (r: bool)
    requires
        bounded(*a),
        bounded(*b),
        0 <= threshold <= UNIT,
    ensures
        r == overlaps(*a, *b, threshold as int),
{
    let (num, den) = iou(a, b);
    assert(0 <= num * UNIT <= 0x100_0000_0000_0000_0000_0000_0000 * UNIT) by (nonlinear_arith)
        requires
            0 <= num <= 0x100_0000_0000_0000_0000_0000_0000,
    ;
    assert(-0x200_0000_0000_0000_0000_0000_0000 * UNIT <= threshold * den
        <= 0x200_0000_0000_0000_0000_0000_0000 * UNIT) by (nonlinear_arith)
        requires
            0 <= threshold <= UNIT,
            -0x200_0000_0000_0000_0000_0000_0000 <= den <= 0x200_0000_0000_0000_0000_0000_0000,
    ;
    num * (UNIT as i128) > (threshold as i128) * den
}

/// Whether some kept detection overlaps `c` beyond the threshold.
pub open spec fn suppressed_by(kept: Seq<Detection>, c: Detection, threshold: int) -> bool {
    exists|k: int| 0 <= k < kept.len() && overlaps(#[trigger] kept[k], c, threshold)
}

/// Greedy suppression in input order: a detection is kept unless it
/// overlaps beyond the threshold one already kept.
pub open spec fn nms_spec(ds: Seq<Detection>, threshold: int) -> Seq<Detection>
    decreases ds.len(),
{
    if ds.len() == 0 {
        Seq::<Detection>::empty()
    } else {
        let prev = nms_spec(ds.drop_last(), threshold);
        if suppressed_by(prev, ds.last(), threshold) {
            prev
        } else {
            prev.push(ds.last())
        }
    }
}

/// Every kept detection is one of the input's.
pub proof fn lemma_nms_subset(ds: Seq<Detection>, threshold: int)
    ensures
        forall|i: int| 0 <= i < nms_spec(ds, threshold).len() ==> ds.contains(
            #[trigger] nms_spec(ds, threshold)[i],
        ),
    decreases ds.len(),
{
    if ds.len() > 0 {
        lemma_nms_subset(ds.drop_last(), threshold);
        let prev = nms_spec(ds.drop_last(), threshold);
        assert forall|i: int| 0 <= i < nms_spec(ds, threshold).len() implies ds.contains(
            #[trigger] nms_spec(ds, threshold)[i],
        ) by {
            if i < prev.len() {
                let j = choose|j: int| 0 <= j < ds.drop_last().len() && ds.drop_last()[j] == prev[i];
                assert(ds[j] == prev[i]);
            } else {
                assert(ds[ds.len() - 1] == ds.last());
            }
        }
    }
}

/// Non-maximum suppression over detections ordered by falling confidence:
/// each is kept unless its overlap with one kept before it exceeds
/// `iou_threshold` millionths. Earlier detections are never removed by
/// later ones.
pub fn nms(detections: &Vec<Detection>, iou_threshold: i64) -> (r: Vec<Detection>)
    requires
        all_bounded(detections@),
        0 <= iou_threshold <= UNIT,
    ensures
        r@ == nms_spec(detections@, iou_threshold as int),
{
    let mut keep: Vec<Detection> = Vec::new();
    let mut j: usize = 0;
    assert(detections@.subrange(0, 0) =~= Seq::<Detection>::empty());
    while j < detections.len()
        invariant
            j <= detections@.len(),
            all_bounded(detections@),
            0 <= iou_threshold <= UNIT,
            keep@ == nms_spec(detections@.subrange(0, j as int), iou_threshold as int),
            all_bounded(keep@),
        decreases detections@.len() - j,
    {
        let c = detections[j];
        let mut hit = false;
        let mut k: usize = 0;
        while k < keep.len()
            invariant
                k <= keep@.len(),
                bounded(c),
                all_bounded(keep@),
                0 <= iou_threshold <= UNIT,
                hit == (exists|m: int| 0 <= m < k && overlaps(#[trigger] keep@[m], c, iou_threshold as int)),
            decreases keep@.len() - k,
        {
            if overlap_exceeds(&keep[k], &c, iou_threshold) {
                hit = true;
            }
            k = k + 1;
        }
        assert(detections@.subrange(0, j + 1).drop_last() =~= detections@.subrange(0, j as int));
        assert(detections@.subrange(0, j + 1).last() == c);
        if !hit {
            keep.push(c);
        }
        j = j + 1;
    }
    assert(detections@.subrange(0, detections@.len() as int) =~= detections@);
    keep
}

/// Thousandths of an input pixel per pixel, as the model's boxes are given.
pub const MILLI: i64 = 1000;

/// The default overlap threshold of the suppression step, in millionths.
pub const NMS_THRESHOLD: i64 = 500_000;

/// A model box `[center x, center y, width, height]` (thousandths of an input
/// pixel) as a top-left box normalized by the input side `s`: the corner is
/// clamped to be non-negative and the size to be at most the whole image.
pub open spec fn corner_box(b: [i32; 4], score: i32, s: int) -> Detection {
    Detection {
        x: imax((2 * b[0] - b[2]) * MILLI / (2 * s), 0) as i64,
        y: imax((2 * b[1] - b[3]) * MILLI / (2 * s), 0) as i64,
        width: imin(b[2] * MILLI / s, UNIT as int) as i64,
        height: imin(b[3] * MILLI / s, UNIT as int) as i64,
        confidence: score,
    }
}

/// `n / d` rounded down.
fn floor_div(n: i64, d: i64) -> (r: i64)
    requires
        0 < d <= 0x10_0000_0000_0000,
        -0x10_0000_0000_0000 <= n <= 0x10_0000_0000_0000,
    ensures
        r == n as int / d as int,
{
    if n >= 0 {
        n / d
    } else {
        let m = -n;
        let q = (m + d - 1) / d;
        assert(-q == n as int / d as int) by (nonlinear_arith)
            requires
                d > 0,
                n < 0,
                m == -n,
                q == (m + d - 1) as int / d as int,
        ;
        -q
    }
}

proof fn lemma_corner_box_bounded(b: [i32; 4], score: i32, s: int)
    requires
        s >= 1,
    ensures
        bounded(corner_box(b, score, s)),
        corner_box(b, score, s).x >= 0,
        corner_box(b, score, s).y >= 0,
        corner_box(b, score, s).width <= UNIT,
        corner_box(b, score, s).height <= UNIT,
{
    let nx = (2 * b[0] - b[2]) * MILLI;
    let ny = (2 * b[1] - b[3]) * MILLI;
    let nw = b[2] * MILLI;
    let nh = b[3] * MILLI;
    assert(-0x1000_0000_0000 <= nx / (2 * s) <= 0x1000_0000_0000) by (nonlinear_arith)
        requires
            s >= 1,
            -0x1000_0000_0000 <= nx <= 0x1000_0000_0000,
    ;
    assert(-0x1000_0000_0000 <= ny / (2 * s) <= 0x1000_0000_0000) by (nonlinear_arith)
        requires
            s >= 1,
            -0x1000_0000_0000 <= ny <= 0x1000_0000_0000,
    ;
    assert(-0x1000_0000_0000 <= nw / s <= 0x1000_0000_0000) by (nonlinear_arith)
        requires
            s >= 1,
            -0x1000_0000_0000 <= nw <= 0x1000_0000_0000,
    ;
    assert(-0x1000_0000_0000 <= nh / s <= 0x1000_0000_0000) by (nonlinear_arith)
        requires
            s >= 1,
            -0x1000_0000_0000 <= nh <= 0x1000_0000_0000,
    ;
}

/// A box centred on the input and spanning all of it becomes the whole
/// image: corner `(0, 0)`, size `(1, 1)`.
pub proof fn lemma_full_frame_box(s: int, score: i32)
    requires
        1 <= s <= 2_000_000,
    ensures
        corner_box([(500 * s) as i32, (500 * s) as i32, (1000 * s) as i32, (1000 * s) as i32], score, s)
            == (Detection { x: 0, y: 0, width: UNIT, height: UNIT, confidence: score }),
{
    let b = [(500 * s) as i32, (500 * s) as i32, (1000 * s) as i32, (1000 * s) as i32];
    assert(b[2] * MILLI / s == UNIT) by (nonlinear_arith)
        requires
            s >= 1,
            b[2] == 1000 * s,
    ;
    assert(b[3] * MILLI / s == UNIT) by (nonlinear_arith)
        requires
            s >= 1,
            b[3] == 1000 * s,
    ;
    assert((2 * b[0] - b[2]) * MILLI / (2 * s) == 0) by (nonlinear_arith)
        requires
            s >= 1,
            b[0] == 500 * s,
            b[2] == 1000 * s,
    ;
    assert((2 * b[1] - b[3]) * MILLI / (2 * s) == 0) by (nonlinear_arith)
        requires
            s >= 1,
            b[1] == 500 * s,
            b[3] == 1000 * s,
    ;
}

/// Converts a model box to a normalized corner box.
pub fn to_corner_box(b: [i32; 4], score: i32, input_size: u32) -> (r: Detection)
    requires
        input_size >= 1,
    ensures
        r == corner_box(b, score, input_size as int),
        bounded(r),
{
    let s = input_size as i64;
    proof {
        lemma_corner_box_bounded(b, score, s as int);
    }
    let x = floor_div((2 * b[0] as i64 - b[2] as i64) * MILLI, 2 * s);
    let y = floor_div((2 * b[1] as i64 - b[3] as i64) * MILLI, 2 * s);
    let w = floor_div(b[2] as i64 * MILLI, s);
    let h = floor_div(b[3] as i64 * MILLI, s);
    Detection {
        x: if x >= 0 { x } else { 0 },
        y: if y >= 0 { y } else { 0 },
        width: if w <= UNIT { w } else { UNIT },
        height: if h <= UNIT { h } else { UNIT },
        confidence: score,
    }
}

/// The boxes, among the first `n`, whose score reaches the threshold, in
/// input order, as corner boxes.
pub open spec fn candidates_spec(
    boxes: Seq<[i32; 4]>,
    scores: Seq<i32>,
    threshold: i32,
    s: int,
    n: int,
) -> Seq<Detection>
    decreases n,
{
    if n <= 0 {
        Seq::<Detection>::empty()
    } else {
        let prev = candidates_spec(boxes, scores, threshold, s, n - 1);
        if scores[n - 1] >= threshold {
            prev.push(corner_box(boxes[n - 1], scores[n - 1], s))
        } else {
            prev
        }
    }
}

pub open spec fn pair_count(boxes: Seq<[i32; 4]>, scores: Seq<i32>) -> int {
    if boxes.len() <= scores.len() { boxes.len() as int } else { scores.len() as int }
}

pub open spec fn all_conf_at_least(ds: Seq<Detection>, t: i32) -> bool {
    forall|i: int| 0 <= i < ds.len() ==> (#[trigger] ds[i]).confidence >= t
}

/// The filter: exactly the boxes whose score is at or above the threshold
/// make it through, each as its corner box.
pub proof fn lemma_confidence_filter(
    boxes: Seq<[i32; 4]>,
    scores: Seq<i32>,
    threshold: i32,
    s: int,
    n: int,
)
    requires
        0 <= n <= boxes.len(),
        n <= scores.len(),
    ensures
        all_conf_at_least(candidates_spec(boxes, scores, threshold, s, n), threshold),
        forall|i: int|
            0 <= i < n && #[trigger] scores[i] >= threshold ==> candidates_spec(
                boxes,
                scores,
                threshold,
                s,
                n,
            ).contains(corner_box(boxes[i], scores[i], s)),
    decreases n,
{
    if n > 0 {
        lemma_confidence_filter(boxes, scores, threshold, s, n - 1);
        let prev = candidates_spec(boxes, scores, threshold, s, n - 1);
        let cur = candidates_spec(boxes, scores, threshold, s, n);
        assert forall|i: int|
            0 <= i < n && #[trigger] scores[i] >= threshold implies cur.contains(
                corner_box(boxes[i], scores[i], s),
            ) by {
            if i < n - 1 {
                let k = choose|k: int| 0 <= k < prev.len() && prev[k] == corner_box(boxes[i], scores[i], s);
                assert(cur[k] == prev[k]);
            } else {
                assert(cur[cur.len() - 1] == corner_box(boxes[i], scores[i], s));
            }
        }
    }
}

/// Scores at or above `threshold` millionths pass; each passing box becomes
/// a corner box. Boxes and scores are paired by position; unpaired ones are
/// ignored.
pub fn confidence_filter(boxes: &Vec<[i32; 4]>, scores: &Vec<i32>, threshold: i32, input_size: u32) -> (r: Vec<Detection>)
    requires
        input_size >= 1,
    ensures
        r@ == candidates_spec(boxes@, scores@, threshold, input_size as int, pair_count(boxes@, scores@)),
        all_bounded(r@),
{
    let n = if boxes.len() <= scores.len() { boxes.len() } else { scores.len() };
    let mut out: Vec<Detection> = Vec::new();
    let mut i: usize = 0;
    while i < n
        invariant
            n == pair_count(boxes@, scores@),
            n <= boxes@.len(),
            n <= scores@.len(),
            i <= n,
            input_size >= 1,
            out@ == candidates_spec(boxes@, scores@, threshold, input_size as int, i as int),
            all_bounded(out@),
        decreases n - i,
    {
        if scores[i] >= threshold {
            out.push(to_corner_box(boxes[i], scores[i], input_size));
        }
        i = i + 1;
    }
    out
}

/// `d` placed into a list ordered by falling confidence: after every entry
/// whose confidence is at least its own, so equal ones keep input order.
pub open spec fn insert_desc(s: Seq<Detection>, d: Detection) -> Seq<Detection>
    decreases s.len(),
{
    if s.len() == 0 {
        seq![d]
    } else if s.last().confidence >= d.confidence {
        s.push(d)
    } else {
        insert_desc(s.drop_last(), d).push(s.last())
    }
}

/// Stable ordering by falling confidence.
pub open spec fn sort_desc(s: Seq<Detection>) -> Seq<Detection>
    decreases s.len(),
{
    if s.len() == 0 {
        s
    } else {
        insert_desc(sort_desc(s.drop_last()), s.last())
    }
}

proof fn lemma_insert_at(s: Seq<Detection>, d: Detection, i: int)
    requires
        0 <= i <= s.len(),
        forall|k: int| i <= k < s.len() ==> (#[trigger] s[k]).confidence < d.confidence,
        i > 0 ==> s[i - 1].confidence >= d.confidence,
    ensures
        insert_desc(s, d) == s.take(i).push(d) + s.skip(i),
    decreases s.len(),
{
    if s.len() == 0 {
        assert(s.take(i).push(d) + s.skip(i) =~= seq![d]);
    } else if i == s.len() {
        assert(s.take(i).push(d) + s.skip(i) =~= s.push(d));
    } else {
        let t = s.drop_last();
        lemma_insert_at(t, d, i);
        assert(s.take(i).push(d) + s.skip(i) =~= (t.take(i).push(d) + t.skip(i)).push(s.last()));
    }
}

proof fn lemma_insert_keeps(s: Seq<Detection>, d: Detection, t: i32)
    requires
        all_conf_at_least(s, t),
        d.confidence >= t,
    ensures
        all_conf_at_least(insert_desc(s, d), t),
        insert_desc(s, d).len() == s.len() + 1,
    decreases s.len(),
{
    if s.len() > 0 && s.last().confidence < d.confidence {
        lemma_insert_keeps(s.drop_last(), d, t);
    }
}

proof fn lemma_sort_keeps(s: Seq<Detection>, t: i32)
    requires
        all_conf_at_least(s, t),
    ensures
        all_conf_at_least(sort_desc(s), t),
        sort_desc(s).len() == s.len(),
    decreases s.len(),
{
    if s.len() > 0 {
        lemma_sort_keeps(s.drop_last(), t);
        lemma_insert_keeps(sort_desc(s.drop_last()), s.last(), t);
    }
}

/// Orders detections by falling confidence; equal confidences keep their
/// input order.
pub fn sort_by_confidence(ds: &Vec<Detection>) -> (r: Vec<Detection>)
    ensures
        r@ == sort_desc(ds@),
{
    let mut out: Vec<Detection> = Vec::new();
    let mut j: usize = 0;
    assert(ds@.subrange(0, 0) =~= Seq::<Detection>::empty());
    while j < ds.len()
        invariant
            j <= ds@.len(),
            out@ == sort_desc(ds@.subrange(0, j as int)),
        decreases ds@.len() - j,
    {
        let d = ds[j];
        let mut i: usize = out.len();
        while i > 0 && out[i - 1].confidence < d.confidence
            invariant
                i <= out@.len(),
                forall|k: int| i <= k < out@.len() ==> (#[trigger] out@[k]).confidence < d.confidence,
            decreases i,
        {
            i = i - 1;
        }
        let ghost before = out@;
        proof {
            lemma_insert_at(before, d, i as int);
        }
        out.insert(i, d);
        assert(out@ =~= before.take(i as int).push(d) + before.skip(i as int));
        assert(ds@.subrange(0, j + 1).drop_last() =~= ds@.subrange(0, j as int));
        j = j + 1;
    }
    assert(ds@.subrange(0, ds@.len() as int) =~= ds@);
    out
}

proof fn lemma_sort_bounded(s: Seq<Detection>)
    requires
        all_bounded(s),
    ensures
        all_bounded(sort_desc(s)),
    decreases s.len(),
{
    if s.len() > 0 {
        lemma_sort_bounded(s.drop_last());
        lemma_insert_bounded(sort_desc(s.drop_last()), s.last());
    }
}

proof fn lemma_insert_bounded(s: Seq<Detection>, d: Detection)
    requires
        all_bounded(s),
        bounded(d),
    ensures
        all_bounded(insert_desc(s, d)),
    decreases s.len(),
{
    if s.len() > 0 && s.last().confidence < d.confidence {
        lemma_insert_bounded(s.drop_last(), d);
    }
}

/// The detections of one inference: boxes (thousandths of an input pixel,
/// centre and size) and scores (millionths) paired by position, filtered at
/// `confidence_threshold`, converted to normalized corner boxes, ordered by
/// falling confidence, and thinned by suppression at half overlap.
pub fn postprocess(boxes: &Vec<[i32; 4]>, scores: &Vec<i32>, confidence_threshold: i32, input_size: u32) -> (r: Vec<Detection>)
    requires
        input_size >= 1,
    ensures
        r@ == nms_spec(
            sort_desc(candidates_spec(boxes@, scores@, confidence_threshold, input_size as int, pair_count(boxes@, scores@))),
            NMS_THRESHOLD as int,
        ),
{
    let candidates = confidence_filter(boxes, scores, confidence_threshold, input_size);
    let sorted = sort_by_confidence(&candidates);
    proof {
        lemma_sort_bounded(candidates@);
    }
    nms(&sorted, NMS_THRESHOLD)
}

/// Whatever postprocessing returns reached the confidence threshold.
pub proof fn lemma_postprocess_threshold(
    boxes: Seq<[i32; 4]>,
    scores: Seq<i32>,
    confidence_threshold: i32,
    input_size: int,
)
    ensures
        all_conf_at_least(
            nms_spec(
                sort_desc(candidates_spec(boxes, scores, confidence_threshold, input_size, pair_count(boxes, scores))),
                NMS_THRESHOLD as int,
            ),
            confidence_threshold,
        ),
{
    let c = candidates_spec(boxes, scores, confidence_threshold, input_size, pair_count(boxes, scores));
    lemma_confidence_filter(boxes, scores, confidence_threshold, input_size, pair_count(boxes, scores));
    lemma_sort_keeps(c, confidence_threshold);
    let sorted = sort_desc(c);
    lemma_nms_subset(sorted, NMS_THRESHOLD as int);
    let kept = nms_spec(sorted, NMS_THRESHOLD as int);
    assert forall|i: int| 0 <= i < kept.len() implies (#[trigger] kept[i]).confidence >= confidence_threshold by {
        assert(sorted.contains(kept[i]));
        let k = choose|k: int| 0 <= k < sorted.len() && sorted[k] == kept[i];
        assert(sorted[k].confidence >= confidence_threshold);
    }
}

/// Of two detections in falling confidence, the second is removed exactly
/// when their overlap exceeds the threshold; at or below it both stay.
pub proof fn lemma_nms_pair(a: Detection, b: Detection, threshold: int)
    ensures
        overlaps(a, b, threshold) ==> nms_spec(seq![a, b], threshold) == seq![a],
        !overlaps(a, b, threshold) ==> nms_spec(seq![a, b], threshold) == seq![a, b],
{
    let s = seq![a, b];
    assert(s.drop_last() =~= seq![a]);
    assert(seq![a].drop_last() =~= Seq::<Detection>::empty());
    assert(nms_spec(Seq::<Detection>::empty(), threshold) =~= Seq::<Detection>::empty());
    assert(!suppressed_by(Seq::<Detection>::empty(), a, threshold));
    assert(nms_spec(seq![a], threshold) =~= seq![a]);
    if overlaps(a, b, threshold) {
        assert(seq![a][0] == a);
        assert(suppressed_by(seq![a], b, threshold));
    } else {
        assert(!suppressed_by(seq![a], b, threshold));
        assert(seq![a].push(b) =~= seq![a, b]);
    }
}

/// No two kept detections overlap beyond the threshold, the earlier one
/// measured against the later.
pub proof fn lemma_nms_kept_apart(ds: Seq<Detection>, threshold: int)
    ensures
        forall|i: int, j: int|
            0 <= i < j < nms_spec(ds, threshold).len() ==> !overlaps(
                #[trigger] nms_spec(ds, threshold)[i],
                #[trigger] nms_spec(ds, threshold)[j],
                threshold,
            ),
    decreases ds.len(),
{
    if ds.len() > 0 {
        lemma_nms_kept_apart(ds.drop_last(), threshold);
        let prev = nms_spec(ds.drop_last(), threshold);
        let cur = nms_spec(ds, threshold);
        assert forall|i: int, j: int| 0 <= i < j < cur.len() implies !overlaps(
            #[trigger] cur[i],
            #[trigger] cur[j],
            threshold,
        ) by {
            if j < prev.len() {
                assert(cur[i] == prev[i] && cur[j] == prev[j]);
            } else {
                assert(!suppressed_by(prev, ds.last(), threshold));
                assert(cur[i] == prev[i]);
                assert(!overlaps(prev[i], ds.last(), threshold));
            }
        }
    }
}

/// Later detections never change what was decided for earlier ones: the
/// result for a prefix of the input is a prefix of the result.
pub proof fn lemma_nms_prefix(ds: Seq<Detection>, k: int, threshold: int)
    requires
        0 <= k <= ds.len(),
    ensures
        nms_spec(ds.take(k), threshold).len() <= nms_spec(ds, threshold).len(),
        nms_spec(ds.take(k), threshold) == nms_spec(ds, threshold).take(
            nms_spec(ds.take(k), threshold).len() as int,
        ),
    decreases ds.len() - k,
{
    if k == ds.len() {
        assert(ds.take(k) =~= ds);
        assert(nms_spec(ds, threshold).take(nms_spec(ds, threshold).len() as int) =~= nms_spec(ds, threshold));
    } else {
        lemma_nms_prefix(ds, k + 1, threshold);
        assert(ds.take(k + 1).drop_last() =~= ds.take(k));
        let a = nms_spec(ds.take(k), threshold);
        let b = nms_spec(ds.take(k + 1), threshold);
        let c = nms_spec(ds, threshold);
        assert(b.take(a.len() as int) =~= a);
        assert(c.take(a.len() as int) =~= c.take(b.len() as int).take(a.len() as int));
    }
}

/// Overlap does not depend on the order of the two boxes.
pub proof fn lemma_iou_symmetric(a: Detection, b: Detection)
    ensures
        iou_ratio(a, b) == iou_ratio(b, a),
{
    assert(inter_w(a, b) == inter_w(b, a));
    assert(inter_h(a, b) == inter_h(b, a));
    assert(inter_area(a, b) == inter_area(b, a));
}

/// A box of non-zero area overlaps itself completely.
pub proof fn lemma_iou_self(a: Detection)
    requires
        a.width > 0,
        a.height > 0,
    ensures
        iou_ratio(a, a).0 == iou_ratio(a, a).1,
        iou_ratio(a, a).0 > 0,
{
    assert(inter_w(a, a) == a.width);
    assert(inter_h(a, a) == a.height);
    assert(area(a) > 0) by (nonlinear_arith)
        requires
            a.width > 0,
            a.height > 0,
    ;
}

/// Boxes that do not meet, or a box without area, overlap by nothing.
pub proof fn lemma_iou_zero(a: Detection, b: Detection)
    requires
        a.x + a.width <= b.x || b.x + b.width <= a.x || a.y + a.height <= b.y || b.y + b.height
            <= a.y || a.width == 0 || a.height == 0 || b.width == 0 || b.height == 0,
    ensures
        iou_ratio(a, b).0 == 0,
{
    assert(inter_w(a, b) == 0 || inter_h(a, b) == 0);
    assert(inter_area(a, b) == 0) by (nonlinear_arith)
        requires
            inter_w(a, b) == 0 || inter_h(a, b) == 0,
            inter_area(a, b) == inter_w(a, b) * inter_h(a, b),
    ;
}

/// How many detections the output tensors describe and how many class
/// scores each has, from the two tensor shapes; `None` when the shapes are
/// too short to read.
pub fn output_layout(boxes_shape: &Vec<usize>, scores_shape: &Vec<usize>) -> (r: Option<(usize, usize)>)
    ensures
        (boxes_shape@.len() < 2 || scores_shape@.len() == 0) ==> r is None,
        !(boxes_shape@.len() < 2 || scores_shape@.len() == 0) ==> r == Some(
            (
                if boxes_shape@.len() == 3 { boxes_shape@[1] } else { boxes_shape@[0] },
                if scores_shape@.len() == 3 {
                    scores_shape@[2]
                } else if scores_shape@.len() == 2 {
                    scores_shape@[1]
                } else {
                    1usize
                },
            ),
        ),
{
    if boxes_shape.len() < 2 || scores_shape.len() == 0 {
        return None;
    }
    let n = if boxes_shape.len() == 3 { boxes_shape[1] } else { boxes_shape[0] };
    let per = if scores_shape.len() == 3 {
        scores_shape[2]
    } else if scores_shape.len() == 2 {
        scores_shape[1]
    } else {
        1
    };
    Some((n, per))
}

/// The largest score of a run; the lowest score when the run is empty.
pub open spec fn max_score(s: Seq<i32>) -> i32
    decreases s.len(),
{
    if s.len() == 0 {
        i32::MIN
    } else {
        let m = max_score(s.drop_last());
        if s.last() > m { s.last() } else { m }
    }
}

/// Detection `i` can be read: its four box values and its `per` scores lie
/// inside the flat output arrays.
pub open spec fn readable(i: int, boxes_len: int, scores_len: int, per: int) -> bool {
    4 * i + 4 <= boxes_len && (i + 1) * per <= scores_len
}

/// Reads the first `n` detections out of the flat output arrays, stopping at
/// the first one that would read past either array. Each detection's score
/// is the largest of its class scores.
pub fn gather_outputs(boxes: &Vec<i32>, scores: &Vec<i32>, n: usize, per: usize) -> (r: (Vec<[i32; 4]>, Vec<i32>))
    ensures
        r.0@.len() == r.1@.len(),
        r.0@.len() <= n,
        r.0@.len() < n ==> !readable(r.0@.len() as int, boxes@.len() as int, scores@.len() as int, per as int),
        forall|i: int| 0 <= i < r.0@.len() ==> readable(i, boxes@.len() as int, scores@.len() as int, per as int),
        forall|i: int|
            0 <= i < r.0@.len() ==> #[trigger] r.0@[i] == [boxes@[4 * i], boxes@[4 * i + 1], boxes@[4 * i + 2], boxes@[4 * i + 3]],
        forall|i: int|
            0 <= i < r.1@.len() ==> #[trigger] r.1@[i] == max_score(scores@.subrange(i * per, (i + 1) * per)),
{
    let mut out_boxes: Vec<[i32; 4]> = Vec::new();
    let mut out_scores: Vec<i32> = Vec::new();
    let mut i: usize = 0;
    while i < n
        invariant
            i <= n,
            out_boxes@.len() == i,
            out_scores@.len() == i,
            forall|k: int| 0 <= k < i ==> readable(k, boxes@.len() as int, scores@.len() as int, per as int),
            forall|k: int|
                0 <= k < i ==> #[trigger] out_boxes@[k] == [boxes@[4 * k], boxes@[4 * k + 1], boxes@[4 * k + 2], boxes@[4 * k + 3]],
            forall|k: int|
                0 <= k < i ==> #[trigger] out_scores@[k] == max_score(scores@.subrange(k * per, (k + 1) * per)),
        ensures
            out_boxes@.len() < n ==> !readable(out_boxes@.len() as int, boxes@.len() as int, scores@.len() as int, per as int),
        decreases n - i,
    {
        if i >= boxes.len() / 4 {
            assert(!readable(i as int, boxes@.len() as int, scores@.len() as int, per as int));
            break;
        }
        if per > 0 && i >= scores.len() / per {
            assert(!readable(i as int, boxes@.len() as int, scores@.len() as int, per as int)) by (nonlinear_arith)
                requires
                    per > 0,
                    i >= scores@.len() as int / per as int,
            ;
            break;
        }
        assert(i * per + per <= scores@.len() && (i + 1) * per == i * per + per) by (nonlinear_arith)
            requires
                per == 0 || i < scores@.len() as int / per as int,
        ;
        let b = 4 * i;
        out_boxes.push([boxes[b], boxes[b + 1], boxes[b + 2], boxes[b + 3]]);
        let start = i * per;
        assert(start + per == (i + 1) * per) by (nonlinear_arith)
            requires
                start == i * per,
        ;
        let slen = scores.len();
        let mut m: i32 = i32::MIN;
        let mut k: usize = 0;
        assert(scores@.subrange(start as int, start as int) =~= Seq::<i32>::empty());
        while k < per
            invariant
                k <= per,
                start + per <= slen,
                slen == scores@.len(),
                m == max_score(scores@.subrange(start as int, start + k)),
            decreases per - k,
        {
            assert(scores@.subrange(start as int, start + k + 1).drop_last() =~= scores@.subrange(start as int, start + k));
            let v = scores[start + k];
            if v > m {
                m = v;
            }
            k = k + 1;
        }
        out_scores.push(m);
        i = i + 1;
    }
    (out_boxes, out_scores)
}

/// The byte offset of the source pixel sampled for target cell `(tx, ty)`
/// when a `width` x `height` image of `channels` bytes per pixel is resized
/// to `target` x `target` by nearest neighbour; `None` when its three colour
/// bytes would lie past the `len` bytes given, so the cell stays zero.
pub open spec fn source_offset_spec(
    tx: int,
    ty: int,
    width: int,
    height: int,
    channels: int,
    target: int,
    len: int,
) -> Option<int> {
    let sx = imin(tx * width / target, imax(width - 1, 0));
    let sy = imin(ty * height / target, imax(height - 1, 0));
    let idx = (sy * width + sx) * channels;
    if idx + 2 < len {
        Some(idx)
    } else {
        None
    }
}

pub fn source_offset(tx: u32, ty: u32, width: u32, height: u32, channels: u32, target: u32, len: usize) -> (r: Option<usize>)
    requires
        target >= 1,
        tx < target,
        ty < target,
    ensures
        r == match source_offset_spec(tx as int, ty as int, width as int, height as int, channels as int, target as int, len as int) {
            Some(i) => Some(i as usize),
            None => None::<usize>,
        },
{
    assert(tx * width <= 0xFFFF_FFFF * 0xFFFF_FFFF && ty * height <= 0xFFFF_FFFF * 0xFFFF_FFFF) by (nonlinear_arith)
        requires
            tx <= 0xFFFF_FFFF,
            width <= 0xFFFF_FFFF,
            ty <= 0xFFFF_FFFF,
            height <= 0xFFFF_FFFF,
    ;
    let sx0 = (tx as u64 * width as u64) / target as u64;
    let sy0 = (ty as u64 * height as u64) / target as u64;
    let wm = if width >= 1 { width as u64 - 1 } else { 0 };
    let hm = if height >= 1 { height as u64 - 1 } else { 0 };
    let sx = if sx0 <= wm { sx0 } else { wm };
    let sy = if sy0 <= hm { sy0 } else { hm };
    assert(sy * width + sx <= 0xFFFF_FFFF * 0xFFFF_FFFF + 0xFFFF_FFFF) by (nonlinear_arith)
        requires
            sy <= 0xFFFF_FFFF,
            sx <= 0xFFFF_FFFF,
            width <= 0xFFFF_FFFF,
    ;
    let pos = sy as u128 * width as u128 + sx as u128;
    assert(pos * channels <= (0xFFFF_FFFF * 0xFFFF_FFFF + 0xFFFF_FFFF) * 0xFFFF_FFFF) by (nonlinear_arith)
        requires
            pos <= 0xFFFF_FFFF * 0xFFFF_FFFF + 0xFFFF_FFFF,
            channels <= 0xFFFF_FFFF,
    ;
    let idx = pos * channels as u128;
    if idx + 2 < len as u128 {
        Some(idx as usize)
    } else {
        None
    }
}

/// The detections of one inference from its two output tensors, given by
/// shape and flat data (boxes in thousandths of an input pixel, scores in
/// millionths): nothing when the shapes cannot be read, else the readable
/// detections post-processed.
pub fn detections_from_outputs(
    boxes_shape: &Vec<usize>,
    boxes: &Vec<i32>,
    scores_shape: &Vec<usize>,
    scores: &Vec<i32>,
    confidence_threshold: i32,
    input_size: u32,
) -> (r: Vec<Detection>)
    requires
        input_size >= 1,
    ensures
        match output_layout_spec(boxes_shape@, scores_shape@) {
            None => r@.len() == 0,
            Some((n, per)) => exists|bs: Seq<[i32; 4]>, ss: Seq<i32>|
                gathered(boxes@, scores@, n as int, per as int, bs, ss) && r@ == nms_spec(
                    sort_desc(candidates_spec(bs, ss, confidence_threshold, input_size as int, pair_count(bs, ss))),
                    NMS_THRESHOLD as int,
                ),
        },
{
    match output_layout(boxes_shape, scores_shape) {
        None => Vec::new(),
        Some((n, per)) => {
            let (bs, ss) = gather_outputs(boxes, scores, n, per);
            let r = postprocess(&bs, &ss, confidence_threshold, input_size);
            assert(gathered(boxes@, scores@, n as int, per as int, bs@, ss@));
            r
        },
    }
}

/// What `output_layout` reads from two shapes.
pub open spec fn output_layout_spec(boxes_shape: Seq<usize>, scores_shape: Seq<usize>) -> Option<(usize, usize)> {
    if boxes_shape.len() < 2 || scores_shape.len() == 0 {
        None
    } else {
        Some(
            (
                if boxes_shape.len() == 3 { boxes_shape[1] } else { boxes_shape[0] },
                if scores_shape.len() == 3 {
                    scores_shape[2]
                } else if scores_shape.len() == 2 {
                    scores_shape[1]
                } else {
                    1usize
                },
            ),
        )
    }
}

/// `bs` and `ss` are what `gather_outputs` reads for `n` detections of
/// `per` scores each.
pub open spec fn gathered(boxes: Seq<i32>, scores: Seq<i32>, n: int, per: int, bs: Seq<[i32; 4]>, ss: Seq<i32>) -> bool {
    &&& bs.len() == ss.len()
    &&& bs.len() <= n
    &&& bs.len() < n ==> !readable(bs.len() as int, boxes.len() as int, scores.len() as int, per)
    &&& forall|i: int| 0 <= i < bs.len() ==> readable(i, boxes.len() as int, scores.len() as int, per)
    &&& forall|i: int|
        0 <= i < bs.len() ==> #[trigger] bs[i] == [boxes[4 * i], boxes[4 * i + 1], boxes[4 * i + 2], boxes[4 * i + 3]]
    &&& forall|i: int| 0 <= i < ss.len() ==> #[trigger] ss[i] == max_score(scores.subrange(i * per, (i + 1) * per))
}

/// `d` is the corner box of an input pair, among the first `n`, whose
/// score reaches the threshold.
pub open spec fn from_input(d: Detection, boxes: Seq<[i32; 4]>, scores: Seq<i32>, threshold: i32, s: int, n: int) -> bool {
    exists|i: int| 0 <= i < n && #[trigger] scores[i] >= threshold && d == corner_box(boxes[i], scores[i], s)
}

/// How many of the first `n` scores reach the threshold.
pub open spec fn count_at_least(scores: Seq<i32>, threshold: i32, n: int) -> int
    decreases n,
{
    if n <= 0 {
        0
    } else {
        count_at_least(scores, threshold, n - 1) + if scores[n - 1] >= threshold { 1int } else { 0int }
    }
}

proof fn lemma_candidates_from_input(boxes: Seq<[i32; 4]>, scores: Seq<i32>, threshold: i32, s: int, n: int)
    requires
        0 <= n <= boxes.len(),
        n <= scores.len(),
    ensures
        forall|k: int| 0 <= k < candidates_spec(boxes, scores, threshold, s, n).len() ==> from_input(
            #[trigger] candidates_spec(boxes, scores, threshold, s, n)[k], boxes, scores, threshold, s, n),
        candidates_spec(boxes, scores, threshold, s, n).len() == count_at_least(scores, threshold, n),
    decreases n,
{
    if n > 0 {
        lemma_candidates_from_input(boxes, scores, threshold, s, n - 1);
        let prev = candidates_spec(boxes, scores, threshold, s, n - 1);
        let cur = candidates_spec(boxes, scores, threshold, s, n);
        assert forall|k: int| 0 <= k < cur.len() implies from_input(#[trigger] cur[k], boxes, scores, threshold, s, n) by {
            if k < prev.len() {
                assert(cur[k] == prev[k]);
                assert(from_input(prev[k], boxes, scores, threshold, s, n - 1));
                let i = choose|i: int| 0 <= i < n - 1 && #[trigger] scores[i] >= threshold && prev[k] == corner_box(boxes[i], scores[i], s);
                assert(0 <= i < n && scores[i] >= threshold && cur[k] == corner_box(boxes[i], scores[i], s));
            } else {
                assert(scores[n - 1] >= threshold && cur[k] == corner_box(boxes[n - 1], scores[n - 1], s));
            }
        }
    }
}

proof fn lemma_insert_members(s: Seq<Detection>, d: Detection)
    ensures
        forall|k: int| 0 <= k < insert_desc(s, d).len() ==> #[trigger] insert_desc(s, d)[k] == d || s.contains(insert_desc(s, d)[k]),
    decreases s.len(),
{
    if s.len() > 0 && s.last().confidence < d.confidence {
        lemma_insert_members(s.drop_last(), d);
        let prev = insert_desc(s.drop_last(), d);
        assert forall|k: int| 0 <= k < insert_desc(s, d).len() implies #[trigger] insert_desc(s, d)[k] == d || s.contains(insert_desc(s, d)[k]) by {
            if k < prev.len() {
                if prev[k] != d {
                    let j = choose|j: int| 0 <= j < s.drop_last().len() && s.drop_last()[j] == prev[k];
                    assert(s[j] == prev[k]);
                }
            } else {
                assert(s[s.len() - 1] == s.last());
            }
        }
    } else if s.len() > 0 {
        assert forall|k: int| 0 <= k < insert_desc(s, d).len() implies #[trigger] insert_desc(s, d)[k] == d || s.contains(insert_desc(s, d)[k]) by {
            if k < s.len() {
                assert(s[k] == insert_desc(s, d)[k]);
            }
        }
    }
}

proof fn lemma_sort_members(s: Seq<Detection>)
    ensures
        forall|k: int| 0 <= k < sort_desc(s).len() ==> s.contains(#[trigger] sort_desc(s)[k]),
    decreases s.len(),
{
    if s.len() > 0 {
        lemma_sort_members(s.drop_last());
        let prev = sort_desc(s.drop_last());
        lemma_insert_members(prev, s.last());
        assert forall|k: int| 0 <= k < sort_desc(s).len() implies s.contains(#[trigger] sort_desc(s)[k]) by {
            let x = sort_desc(s)[k];
            if x == s.last() {
                assert(s[s.len() - 1] == x);
            } else {
                assert(prev.contains(x));
                let m = choose|m: int| 0 <= m < prev.len() && prev[m] == x;
                assert(s.drop_last().contains(prev[m]));
                let j = choose|j: int| 0 <= j < s.drop_last().len() && s.drop_last()[j] == x;
                assert(s[j] == x);
            }
        }
    }
}

/// Every detection that postprocessing returns is the corner box of one
/// input pair whose score reaches the threshold; its confidence is that
/// score.
pub proof fn lemma_postprocess_from_input(
    boxes: Seq<[i32; 4]>,
    scores: Seq<i32>,
    confidence_threshold: i32,
    input_size: int,
)
    ensures
        forall|k: int|
            0 <= k < nms_spec(
                sort_desc(candidates_spec(boxes, scores, confidence_threshold, input_size, pair_count(boxes, scores))),
                NMS_THRESHOLD as int,
            ).len() ==> from_input(
                #[trigger] nms_spec(
                    sort_desc(candidates_spec(boxes, scores, confidence_threshold, input_size, pair_count(boxes, scores))),
                    NMS_THRESHOLD as int,
                )[k],
                boxes,
                scores,
                confidence_threshold,
                input_size,
                pair_count(boxes, scores),
            ),
{
    let n = pair_count(boxes, scores);
    let c = candidates_spec(boxes, scores, confidence_threshold, input_size, n);
    lemma_candidates_from_input(boxes, scores, confidence_threshold, input_size, n);
    let sorted = sort_desc(c);
    lemma_sort_members(c);
    lemma_nms_subset(sorted, NMS_THRESHOLD as int);
    let kept = nms_spec(sorted, NMS_THRESHOLD as int);
    assert forall|k: int| 0 <= k < kept.len() implies from_input(#[trigger] kept[k], boxes, scores, confidence_threshold, input_size, n) by {
        assert(sorted.contains(kept[k]));
        let m = choose|m: int| 0 <= m < sorted.len() && sorted[m] == kept[k];
        assert(c.contains(sorted[m]));
        let j = choose|j: int| 0 <= j < c.len() && c[j] == sorted[m];
        assert(from_input(c[j], boxes, scores, confidence_threshold, input_size, n));
    }
}

/// When no two detections overlap beyond the threshold, suppression keeps
/// them all.
pub proof fn lemma_nms_keeps_all(ds: Seq<Detection>, threshold: int)
    requires
        forall|i: int, j: int| 0 <= i < j < ds.len() ==> !overlaps(#[trigger] ds[i], #[trigger] ds[j], threshold),
    ensures
        nms_spec(ds, threshold) == ds,
    decreases ds.len(),
{
    if ds.len() > 0 {
        let p = ds.drop_last();
        assert forall|i: int, j: int| 0 <= i < j < p.len() implies !overlaps(#[trigger] p[i], #[trigger] p[j], threshold) by {
            assert(p[i] == ds[i] && p[j] == ds[j]);
        }
        lemma_nms_keeps_all(p, threshold);
        assert forall|k: int| 0 <= k < p.len() implies !overlaps(#[trigger] p[k], ds.last(), threshold) by {
            assert(p[k] == ds[k]);
            assert(ds.last() == ds[ds.len() - 1]);
        }
        assert(!suppressed_by(p, ds.last(), threshold));
        assert(p.push(ds.last()) =~= ds);
    }
}

/// Every box at or above the threshold is returned unless suppression
/// removes it: when no two candidates, in confidence order, overlap beyond
/// one half, the result holds one detection per score at or above the
/// threshold.
pub proof fn lemma_postprocess_keeps_all(
    boxes: Seq<[i32; 4]>,
    scores: Seq<i32>,
    confidence_threshold: i32,
    input_size: int,
)
    requires
        forall|i: int, j: int|
            0 <= i < j < sort_desc(candidates_spec(boxes, scores, confidence_threshold, input_size, pair_count(boxes, scores))).len()
                ==> !overlaps(
                #[trigger] sort_desc(candidates_spec(boxes, scores, confidence_threshold, input_size, pair_count(boxes, scores)))[i],
                #[trigger] sort_desc(candidates_spec(boxes, scores, confidence_threshold, input_size, pair_count(boxes, scores)))[j],
                NMS_THRESHOLD as int,
            ),
    ensures
        nms_spec(
            sort_desc(candidates_spec(boxes, scores, confidence_threshold, input_size, pair_count(boxes, scores))),
            NMS_THRESHOLD as int,
        ).len() == count_at_least(scores, confidence_threshold, pair_count(boxes, scores)),
{
    let n = pair_count(boxes, scores);
    let c = candidates_spec(boxes, scores, confidence_threshold, input_size, n);
    lemma_candidates_from_input(boxes, scores, confidence_threshold, input_size, n);
    lemma_sort_keeps(c, i32::MIN);
    lemma_nms_keeps_all(sort_desc(c), NMS_THRESHOLD as int);
}

} // verus!
