use rust_scrcpy::error::ScrcpyError;
use rust_scrcpy::float_bits::{bits_are_nan, is_at_most, is_less};
use rust_scrcpy::yolo::{
    apply_nms, box_is_large_enough, build_empty_result, check_frame, frame_of_task,
    infer_and_publish_frame, infer_and_publish_gpu_frame, init_yolo, is_result_for, output_rows,
    publish_yolo_result, rank_detections, read_row, remove_session_state, scores_are_numbers,
    set_yolo_enabled, subscribe_yolo_results, suppress_overlaps, update_yolo_config, validate_yolo_config, Candidate, InferTask,
    LatestInferQueue, RowClass, YoloConfig, YoloExecutionProvider, YoloFrameResult,
    YoloInferPipeline, YoloRuntime,
};

fn config() -> YoloConfig {
    YoloConfig {
        model_path: "m.onnx".to_string(),
        input_width: 640,
        input_height: 640,
        confidence_threshold: 0.25f32.to_bits(),
        iou_threshold: 0.45f32.to_bits(),
        max_detections: 100,
        provider: YoloExecutionProvider::DirectMl,
        device_index: None,
        max_infer_fps: 15,
    }
}

#[test]
fn bits_are_ordered_as_numbers() {
    let numbers = [f32::NEG_INFINITY, -1.5, -0.0, 0.0, 1e-40, 0.25, 1.0, f32::INFINITY, f32::NAN];
    for a in numbers {
        assert_eq!(bits_are_nan(a.to_bits()), a.is_nan());
        for b in numbers {
            assert_eq!(is_less(a.to_bits(), b.to_bits()), a < b);
            assert_eq!(is_at_most(a.to_bits(), b.to_bits()), a <= b);
        }
    }
}

#[test]
fn settings_are_checked_in_order() {
    assert_eq!(validate_yolo_config(&config()), Ok(()));
    let cases = [
        (YoloConfig { model_path: " ".to_string(), ..config() }, "yolo model path is empty"),
        (YoloConfig { input_width: 0, ..config() }, "yolo input size is invalid"),
        (
            YoloConfig { confidence_threshold: 1.1f32.to_bits(), ..config() },
            "confidence threshold out of range",
        ),
        (
            YoloConfig { iou_threshold: (-0.1f32).to_bits(), ..config() },
            "iou threshold out of range",
        ),
        (
            YoloConfig { iou_threshold: f32::NAN.to_bits(), ..config() },
            "iou threshold out of range",
        ),
        (YoloConfig { max_detections: 0, ..config() }, "max detections must be > 0"),
        (YoloConfig { max_infer_fps: 0, ..config() }, "max infer fps must be > 0"),
    ];
    for (config, text) in cases {
        assert_eq!(validate_yolo_config(&config), Err(ScrcpyError::Other(text.to_string())));
    }
}

#[test]
fn frames_are_held_back() {
    let mut pipeline = YoloInferPipeline::new(10);
    let ms = 1_000_000;
    let looked_at: Vec<u64> =
        (0..30).map(|i| i * 33 * ms).filter(|t| pipeline.should_infer_now(*t)).collect();
    assert!(looked_at.windows(2).all(|w| w[1] - w[0] >= 100 * ms));
    assert_eq!(looked_at.len() as u64 + pipeline.skipped_by_rate_limit(), 30);
    pipeline.update_max_infer_fps(0);
    assert_eq!(pipeline.min_interval_ms, 1000);
    pipeline.update_max_infer_fps(5000);
    assert_eq!(pipeline.min_interval_ms, 1);
    assert_eq!(YoloInferPipeline::default().min_interval_ms, 67);
}

#[test]
fn no_more_frames_than_named_are_looked_at_in_a_second() {
    let ms = 1_000_000;
    let mut pipeline = YoloInferPipeline::new(15);
    let looked_at = (0..=15).filter(|k| pipeline.should_infer_now(k * 66 * ms)).count();
    assert!(looked_at <= 15);
    for fps in [1u32, 3, 7, 15, 30, 60, 999, 1000, 1001] {
        let mut pipeline = YoloInferPipeline::new(fps);
        let times: Vec<u64> =
            (0..3000).map(|i| i * ms).filter(|t| pipeline.should_infer_now(*t)).collect();
        assert!(times.windows(fps as usize + 1).all(|w| w[fps as usize] - w[0] >= 1000 * ms));
    }
}

#[test]
fn sessions_are_switched_on_and_off() {
    let mut runtime = YoloRuntime::new();
    assert!(!runtime.infer_bgra_if_needed("a", 0));
    assert_eq!(set_yolo_enabled(&mut runtime, "a", true), Ok(()));
    assert_eq!(
        set_yolo_enabled(&mut runtime, " ", true),
        Err(ScrcpyError::Other("session id is empty".to_string()))
    );
    assert_eq!(subscribe_yolo_results("a"), Ok(()));
    assert_eq!(
        subscribe_yolo_results("\t"),
        Err(ScrcpyError::Other("session id is empty".to_string()))
    );
    assert!(runtime.is_session_enabled("a"));
    assert!(!runtime.infer_bgra_if_needed("a", 0));
    let failed = Err(ScrcpyError::Other("no model".to_string()));
    assert!(runtime.init(&config(), failed).is_err());
    assert_eq!(runtime.init(&config(), Ok(())), Ok(()));
    assert!(runtime.infer_bgra_if_needed("a", 0));
    assert!(!runtime.infer_bgra_if_needed("a", 66_999_999));
    assert!(runtime.infer_bgra_if_needed("a", 67_000_000));
    assert!(!runtime.infer_bgra_if_needed("b", 0));
    let result: YoloFrameResult<u8> = build_empty_result("a".to_string(), 1, 2, 3, 4);
    assert!(is_result_for(&result, "a"));
    assert!(publish_yolo_result(&runtime, result).is_some());
    remove_session_state(&mut runtime, "a");
    assert!(!runtime.is_session_enabled("a"));
    let result: YoloFrameResult<u8> = build_empty_result("a".to_string(), 1, 2, 3, 4);
    assert!(publish_yolo_result(&runtime, result).is_none());
}

#[test]
fn only_a_fit_set_up_is_loaded() {
    let mut runtime = YoloRuntime::new();
    set_yolo_enabled(&mut runtime, "a", true).unwrap();
    let mut unfit = config();
    unfit.max_detections = 0;
    assert_eq!(
        init_yolo(&mut runtime, &unfit, |_: &YoloConfig| panic!("must not be loaded")),
        Err(ScrcpyError::Other("max detections must be > 0".to_string()))
    );
    let lost = ScrcpyError::Other("no model".to_string());
    assert_eq!(init_yolo(&mut runtime, &config(), |_: &YoloConfig| Err(lost.clone())), Err(lost.clone()));
    assert!(!runtime.infer_bgra_if_needed("a", 0));
    assert_eq!(init_yolo(&mut runtime, &config(), |_: &YoloConfig| Ok(())), Ok(()));
    assert!(runtime.infer_bgra_if_needed("a", 0));
    assert!(!runtime.infer_bgra_if_needed("a", 10_000_000));
    let mut faster = config();
    faster.max_infer_fps = 100;
    assert_eq!(update_yolo_config(&mut runtime, &faster, |_: &YoloConfig| Err(lost.clone())), Err(lost));
    assert!(!runtime.infer_bgra_if_needed("a", 10_000_000));
    assert_eq!(update_yolo_config(&mut runtime, &faster, |_: &YoloConfig| Ok(())), Ok(()));
    assert!(runtime.infer_bgra_if_needed("a", 10_000_000));
}

#[test]
fn a_newer_frame_takes_the_place_of_a_waiting_one() {
    let mut queue = LatestInferQueue::new();
    assert_eq!(queue.push_latest(1), 0);
    assert_eq!(queue.push_latest(2), 1);
    assert_eq!(queue.take(), Some(2));
    assert_eq!(queue.take(), None);
    assert_eq!(queue.push_latest(3), 1);
}

#[test]
fn frames_for_inference() {
    assert_eq!(
        infer_and_publish_frame("", 1, &[0; 4], 1, 1, 4).unwrap_err(),
        ScrcpyError::Other("session id is empty".to_string())
    );
    assert_eq!(
        infer_and_publish_frame("a", 1, &[0; 4], 0, 1, 4).unwrap_err(),
        ScrcpyError::Other("invalid frame geometry".to_string())
    );
    assert_eq!(
        infer_and_publish_gpu_frame("a", 1, 5, 1, 0).unwrap_err(),
        ScrcpyError::Other("invalid gpu frame geometry".to_string())
    );
    let task = infer_and_publish_frame("a", 1, &[1, 2, 3, 4], 1, 1, 4).unwrap();
    let frame = frame_of_task(task, |_, _, _| Ok(Vec::new())).unwrap();
    assert_eq!(frame.bgra, [1, 2, 3, 4]);
    let task = infer_and_publish_gpu_frame("a", 9, 5, 2, 1).unwrap();
    assert!(matches!(task, InferTask::GpuShared { handle: 5, .. }));
    let frame = frame_of_task(task, |h, w, _| Ok(vec![h as u8, w as u8])).unwrap();
    assert_eq!(frame.bgra, [5, 2]);
    assert_eq!((frame.frame_id, frame.width, frame.height, frame.stride), (9, 2, 1, 8));
    assert_eq!(check_frame(2, 2, 8, 16), Ok(()));
    assert_eq!(
        check_frame(0, 2, 8, 16),
        Err(ScrcpyError::Other("invalid frame size".to_string()))
    );
    assert_eq!(
        check_frame(2, 2, 8, 15),
        Err(ScrcpyError::Other("bgra buffer too small: got=15, required=16".to_string()))
    );
}

#[test]
fn outputs_are_cut_into_rows() {
    let data: Vec<u8> = (0..6).collect();
    assert_eq!(output_rows(&[2, 3], &data).unwrap(), [[0, 1, 2], [3, 4, 5]]);
    assert_eq!(output_rows(&[1, 2, 3], &data).unwrap(), [[0, 1, 2], [3, 4, 5]]);
    assert_eq!(output_rows(&[1, 3, 2], &data).unwrap(), [[0, 2, 4], [1, 3, 5]]);
    assert_eq!(
        output_rows(&[2, 3, 1], &data).unwrap_err(),
        ScrcpyError::Other("unsupported yolo output shape: [2, 3, 1]".to_string())
    );
}

fn bits(numbers: &[f32]) -> Vec<u32> {
    numbers.iter().map(|n| n.to_bits()).collect()
}

#[test]
fn rows_are_read() {
    let threshold = 0.25f32.to_bits();
    let reading = read_row(&bits(&[1.0, 2.0, 3.0, 4.0, 0.5, 7.0]), threshold).unwrap();
    assert_eq!(reading.score, 0.5f32.to_bits());
    assert_eq!(reading.class, RowClass::Number(7.0f32.to_bits()));
    let reading = read_row(&bits(&[1.0, 2.0, 3.0, 4.0, 0.1, 0.9, 0.9]), threshold).unwrap();
    assert_eq!(reading.score, 0.9f32.to_bits());
    assert_eq!(reading.class, RowClass::Index(1));
    assert!(read_row(&bits(&[1.0, 2.0, 3.0, 4.0, 0.1, 0.2, 0.2]), threshold).is_none());
    assert!(read_row(&bits(&[1.0, 2.0, 3.0, 4.0, 0.9]), threshold).is_none());
    assert!(box_is_large_enough(1.5f32.to_bits(), 2.0f32.to_bits()));
    assert!(!box_is_large_enough(1.0f32.to_bits(), 2.0f32.to_bits()));
}

fn found(items: &[(f32, u32, i32)]) -> Vec<Candidate<i32>> {
    items
        .iter()
        .map(|(score, class_id, bbox)| Candidate {
            score: score.to_bits(),
            class_id: *class_id,
            bbox: *bbox,
        })
        .collect()
}

fn boxes(detections: &[Candidate<i32>]) -> Vec<i32> {
    detections.iter().map(|d| d.bbox).collect()
}

#[test]
fn the_best_of_overlapping_detections_stays() {
    let near = |a: &i32, b: &i32| (a - b).abs() < 10;
    let all = found(&[(0.5, 1, 3), (0.9, 1, 0), (0.5, 2, 1), (0.5, 1, 40), (0.5, 1, 60)]);
    assert!(scores_are_numbers(&all));
    assert_eq!(boxes(&rank_detections(all.clone())), [0, 3, 1, 40, 60]);
    assert_eq!(boxes(&apply_nms(all.clone(), near, 100)), [0, 1, 40, 60]);
    assert_eq!(boxes(&apply_nms(all.clone(), near, 2)), [0, 1]);
    assert_eq!(boxes(&suppress_overlaps(all, near, 1)), [3]);
    assert!(!scores_are_numbers(&found(&[(f32::NAN, 1, 1)])));
}
