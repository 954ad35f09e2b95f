use desk_collector::detection::{
    detections_from_outputs,
    gather_outputs, iou, nms, output_layout, postprocess, source_offset, to_corner_box, Detection, NMS_THRESHOLD,
};

fn det(x: i64, y: i64, width: i64, height: i64, confidence: i32) -> Detection {
    Detection { x, y, width, height, confidence }
}

#[test]
fn test_nms_removes_overlapping() {
    let dets = vec![
        det(100_000, 100_000, 300_000, 300_000, 900_000),
        det(120_000, 120_000, 300_000, 300_000, 700_000),
        det(700_000, 700_000, 200_000, 200_000, 800_000),
    ];
    let kept = nms(&dets, 500_000);
    assert_eq!(kept.len(), 2);
    assert_eq!(kept[0].confidence, 900_000);
    assert_eq!(kept[1].confidence, 800_000);
}

#[test]
fn test_nms_no_overlap() {
    let dets = vec![det(0, 0, 100_000, 100_000, 900_000), det(500_000, 500_000, 100_000, 100_000, 800_000)];
    assert_eq!(nms(&dets, 500_000).len(), 2);
}

#[test]
fn nms_threshold_is_strict() {
    // b covers two thirds of a's width: overlap exactly one half.
    let a = det(0, 0, 300, 100, 900_000);
    let b = det(100, 0, 300, 100, 800_000);
    let (num, den) = iou(&a, &b);
    assert_eq!(num * 2, den);
    assert_eq!(nms(&vec![a, b], 500_000).len(), 2);
    assert_eq!(nms(&vec![a, b], 499_999).len(), 1);
}

#[test]
fn nms_keeps_a_box_whose_suppressor_was_removed() {
    let a = det(0, 0, 100, 100, 900_000);
    let b = det(20, 0, 100, 100, 800_000);
    let c = det(40, 0, 100, 100, 700_000);
    // c overlaps b beyond one half, but b is gone; c overlaps a by 3/7 only.
    let kept = nms(&vec![a, b, c], 500_000);
    assert_eq!(kept, vec![a, c]);
}

#[test]
fn test_confidence_filter() {
    let boxes = vec![[288_000, 288_000, 100_000, 100_000], [100_000, 100_000, 50_000, 50_000]];
    let scores = vec![800_000, 100_000];
    let dets = postprocess(&boxes, &scores, 300_000, 576);
    assert_eq!(dets.len(), 1);
    assert_eq!(dets[0].confidence, 800_000);
}

#[test]
fn test_confidence_filter_640() {
    let boxes = vec![[320_000, 320_000, 100_000, 100_000]];
    let dets = postprocess(&boxes, &vec![800_000], 300_000, 640);
    assert_eq!(dets.len(), 1);
}

#[test]
fn confidence_at_threshold_is_kept() {
    let boxes = vec![[100_000, 100_000, 10_000, 10_000], [400_000, 400_000, 10_000, 10_000]];
    let dets = postprocess(&boxes, &vec![300_000, 299_999], 300_000, 576);
    assert_eq!(dets.len(), 1);
    assert_eq!(dets[0].confidence, 300_000);
}

#[test]
fn test_detection_empty_input() {
    assert!(postprocess(&vec![], &vec![], 300_000, 576).is_empty());
}

#[test]
fn postprocess_orders_by_confidence() {
    let boxes = vec![
        [50_000, 50_000, 20_000, 20_000],
        [300_000, 300_000, 20_000, 20_000],
        [500_000, 500_000, 20_000, 20_000],
    ];
    let dets = postprocess(&boxes, &vec![400_000, 900_000, 600_000], 300_000, 576);
    let conf: Vec<i32> = dets.iter().map(|d| d.confidence).collect();
    assert_eq!(conf, vec![900_000, 600_000, 400_000]);
}

#[test]
fn test_iou_identical() {
    let a = det(100_000, 100_000, 300_000, 300_000, 900_000);
    let (num, den) = iou(&a, &a);
    assert!(num > 0);
    assert_eq!(num, den);
}

#[test]
fn test_iou_no_overlap() {
    let a = det(0, 0, 100_000, 100_000, 900_000);
    let b = det(500_000, 500_000, 100_000, 100_000, 800_000);
    assert_eq!(iou(&a, &b).0, 0);
}

#[test]
fn test_iou_contained() {
    let a = det(0, 0, 1_000_000, 1_000_000, 900_000);
    let b = det(200_000, 200_000, 100_000, 100_000, 800_000);
    let (num, den) = iou(&a, &b);
    assert_eq!(num * 100, den);
}

#[test]
fn test_iou_zero_area() {
    let a = det(500_000, 500_000, 0, 0, 900_000);
    let b = det(500_000, 500_000, 100_000, 100_000, 800_000);
    assert_eq!(iou(&a, &b), (0, 10_000_000_000));
}

#[test]
fn iou_is_symmetric() {
    let a = det(10, 20, 300, 400, 1);
    let b = det(200, 100, 300, 400, 2);
    assert_eq!(iou(&a, &b), iou(&b, &a));
}

#[test]
fn test_postprocess_cxcywh_conversion() {
    let dets = postprocess(&vec![[288_000, 288_000, 576_000, 576_000]], &vec![900_000], 300_000, 576);
    assert_eq!(dets.len(), 1);
    assert_eq!(dets[0].x, 0);
    assert_eq!(dets[0].y, 0);
    assert_eq!(dets[0].width, 1_000_000);
    assert_eq!(dets[0].height, 1_000_000);
}

#[test]
fn corner_box_clamps() {
    let d = to_corner_box([0, 0, 1_152_000, 100_000], 5, 576);
    assert_eq!(d.x, 0);
    assert_eq!(d.width, 1_000_000);
    let d = to_corner_box([288_000, 144_000, 57_600, 28_800], 5, 576);
    assert_eq!((d.x, d.y, d.width, d.height), (450_000, 225_000, 100_000, 50_000));
}

#[test]
fn outputs_take_the_best_class_and_stop_at_the_end() {
    let boxes = vec![1, 2, 3, 4, 5, 6, 7, 8, 9, 10];
    let scores = vec![10, 30, 20, -5, -7, -1, 4];
    let (b, s) = gather_outputs(&boxes, &scores, 5, 3);
    assert_eq!(b, vec![[1, 2, 3, 4], [5, 6, 7, 8]]);
    assert_eq!(s, vec![30, -1]);
    let (b, s) = gather_outputs(&boxes, &scores, 1, 0);
    assert_eq!(b.len(), 1);
    assert_eq!(s, vec![i32::MIN]);
}

#[test]
fn output_layout_reads_shapes() {
    assert_eq!(output_layout(&vec![1, 300, 4], &vec![1, 300, 90]), Some((300, 90)));
    assert_eq!(output_layout(&vec![300, 4], &vec![300, 1]), Some((300, 1)));
    assert_eq!(output_layout(&vec![300, 4], &vec![300]), Some((300, 1)));
    assert_eq!(output_layout(&vec![4], &vec![300]), None);
    assert_eq!(output_layout(&vec![300, 4], &vec![]), None);
}

#[test]
fn preprocess_sampling_offsets() {
    // 4x3 three-byte image into a 576 square: cell (575, 575) samples pixel (3, 2).
    assert_eq!(source_offset(575, 575, 4, 3, 3, 576, 36), Some((2 * 4 + 3) * 3));
    assert_eq!(source_offset(0, 0, 1, 1, 4, 576, 4), Some(0));
    assert_eq!(source_offset(0, 0, 1, 1, 3, 576, 2), None);
}

#[test]
fn nms_threshold_constant_is_one_half() {
    assert_eq!(NMS_THRESHOLD, 500_000);
}

#[test]
fn detections_from_model_outputs() {
    let boxes = vec![288_000, 288_000, 576_000, 576_000, 10_000, 10_000, 5_000, 5_000];
    let scores = vec![100_000, 900_000, 200_000, 250_000];
    let dets = detections_from_outputs(&vec![1, 2, 4], &boxes, &vec![1, 2, 2], &scores, 300_000, 576);
    assert_eq!(dets.len(), 1);
    assert_eq!(dets[0], det(0, 0, 1_000_000, 1_000_000, 900_000));
    assert!(detections_from_outputs(&vec![4], &boxes, &vec![1, 2, 2], &scores, 300_000, 576).is_empty());
}
