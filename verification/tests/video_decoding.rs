use rust_scrcpy::backend::{
    BackendKind, BackendOutput, BgraFrame, DecodedFrame, DecoderFactory, DecoderOutputMode,
    DecoderPreference, FfmpegDecodedFrame,
};
use rust_scrcpy::callbacks::{bgra_to_rgba, frame_notice, FrameCounter, FrameNotice};
use rust_scrcpy::decode_pipeline::{
    decoder_preference, frame_handed_on, ScrcpyDecodeConfig, ScrcpyDecodeEvent,
    ScrcpyDecodePipeline,
};
use rust_scrcpy::error::ScrcpyError;
use rust_scrcpy::ffmpeg::{
    choose_codec, copy_pixel_rows, hw_candidates, CodecChoice, DrainStep, FfmpegDecoder,
    FfmpegDecoderMode, ReceiveEvent, SendStep,
};
use rust_scrcpy::h264::{merge_h264_access_units_for_test, H264AuMerger};
use rust_scrcpy::model::DecoderMode;
use rust_scrcpy::pipeline::{
    hand_on, on_uploaded, push_input, should_recreate_decoder, DecodeFollowUp, DecodeWorker,
    FramedInputPacket, FramedPacketMerger, LatestFrameQueue, PipelineConfig, PipelineEvent,
    PipelineStats, PopStep, SendOutcome, VideoInput,
};
use rust_scrcpy::uploader::{create_context, needs_texture, TextureSlots, UploadPlan};

const START: [u8; 4] = [0, 0, 0, 1];

fn annexb(nals: &[&[u8]]) -> Vec<u8> {
    let mut out = Vec::new();
    for nal in nals {
        out.extend_from_slice(&START);
        out.extend_from_slice(nal);
    }
    out
}

#[test]
fn packet_merger_caches_config_and_emits_on_media() {
    let mut merger = H264AuMerger::new();

    let sps = vec![0x67, 0x64, 0x00, 0x1F];
    let pps = vec![0x68, 0xEE, 0x3C, 0x80];
    let idr_1 = vec![0x65, 0x80, 0x00];
    let idr_2 = vec![0x65, 0x80, 0x00];

    assert!(merger.merge_nal(&sps).is_none());
    assert!(merger.merge_nal(&pps).is_none());
    assert!(merger.merge_nal(&idr_1).is_none());

    let out = merger.merge_nal(&idr_2).expect("should emit previous access unit");

    let mut expected = Vec::new();
    expected.extend_from_slice(&[0, 0, 0, 1]);
    expected.extend_from_slice(&sps);
    expected.extend_from_slice(&[0, 0, 0, 1]);
    expected.extend_from_slice(&pps);
    expected.extend_from_slice(&[0, 0, 0, 1]);
    expected.extend_from_slice(&idr_1);

    assert_eq!(out.packet, expected);
    assert!(out.is_idr);
}

#[test]
fn slices_of_one_picture_stay_together() {
    let first: &[u8] = &[0x41, 0x80];
    let more: &[u8] = &[0x41, 0x40];
    let next: &[u8] = &[0x41, 0x80, 0x07];
    let nals: Vec<Vec<u8>> = [first, more, next, &[], first].iter().map(|n| n.to_vec()).collect();
    let units = merge_h264_access_units_for_test(&nals);
    assert_eq!(units, [(annexb(&[first, more]), false), (annexb(&[next]), false)]);
}

#[test]
fn prefix_units_go_before_the_next_picture() {
    let mut merger = H264AuMerger::new();
    let sei: &[u8] = &[0x06, 0x05];
    let slice: &[u8] = &[0x41, 0x80];
    assert!(merger.merge_nal(sei).is_none());
    assert!(merger.merge_nal(slice).is_none());
    let out = merger.merge_nal(&[0x41, 0x80]).unwrap();
    assert_eq!(out.packet, annexb(&[sei, slice]));
    assert!(!out.is_idr);
}

#[test]
fn bits_of_a_slice_header() {
    assert_eq!(H264AuMerger::nal_type(&[0x67]), Some(7));
    assert_eq!(H264AuMerger::nal_type(&[]), None);
    assert_eq!(
        H264AuMerger::remove_emulation_prevention(&[1, 0, 0, 3, 1, 0, 0, 3]),
        [1, 0, 0, 1, 0, 0]
    );
    let mut at = 0;
    assert_eq!(H264AuMerger::read_ue(&[0b1010_0110, 0b0100_0010], &mut at), Some(0));
    assert_eq!(H264AuMerger::read_ue(&[0b1010_0110, 0b0100_0010], &mut at), Some(1));
    assert_eq!(H264AuMerger::read_ue(&[0b1010_0110, 0b0100_0010], &mut at), Some(2));
    let mut at = 0;
    assert_eq!(H264AuMerger::read_ue(&[0], &mut at), None);
    assert!(H264AuMerger::is_first_slice(&[0x65, 0x80]));
    assert!(!H264AuMerger::is_first_slice(&[0x65, 0x40]));
    let mut out = vec![9];
    H264AuMerger::append_annexb(&mut out, &[5]);
    assert_eq!(out, [9, 0, 0, 0, 1, 5]);
}

fn framed(data: &[u8], is_config: bool, is_keyframe: bool) -> FramedInputPacket {
    FramedInputPacket { data: data.to_vec(), is_config, is_keyframe }
}

#[test]
fn a_config_packet_goes_before_the_next_packet_only() {
    let mut merger = FramedPacketMerger::new();
    let config = merger.merge(framed(&[1], true, false)).unwrap();
    assert_eq!(config.packet, [1]);
    assert!(config.is_config);
    let first = merger.merge(framed(&[2], false, true)).unwrap();
    assert_eq!(first.packet, [1, 2]);
    assert!(first.is_idr);
    let second = merger.merge(framed(&[3], false, false)).unwrap();
    assert_eq!(second.packet, [3]);
    assert!(!second.is_idr);
}

#[test]
fn a_full_frame_queue_drops_the_oldest() {
    let mut queue = LatestFrameQueue::new(2);
    assert!(!queue.push_latest(1));
    assert!(!queue.push_latest(2));
    assert!(queue.push_latest(3));
    assert!(matches!(queue.pop_step(false), PopStep::Item(2)));
    assert!(matches!(queue.pop_step(true), PopStep::Item(3)));
    assert!(matches!(queue.pop_step(false), PopStep::Wait));
    assert!(matches!(queue.pop_step(true), PopStep::Done));
    queue.close();
    assert!(matches!(queue.pop_step(false), PopStep::Done));
}

#[test]
fn after_an_error_only_a_key_frame_is_decoded() {
    let mut worker = DecodeWorker::new();
    let mut queue: LatestFrameQueue<u8> = LatestFrameQueue::new(2);
    let mut stats = PipelineStats::default();
    let delta = || VideoInput::FramedPacket(framed(&[2], false, false));
    assert!(worker.on_input(delta(), &mut stats).is_none());
    let key = VideoInput::FramedPacket(framed(&[1], false, true));
    assert_eq!(worker.on_input(key, &mut stats).unwrap().packet, [1]);
    assert_eq!(stats.resync_signals, 1);
    assert_eq!(
        worker.on_decoded(Ok(vec![7, 8, 9]), 4, &mut queue, &mut stats),
        DecodeFollowUp::Continue
    );
    assert_eq!((stats.decoded_frames, stats.dropped_frames, stats.last_decode_ms), (3, 1, 4));
    assert!(worker.on_input(delta(), &mut stats).is_some());
    let error = ScrcpyError::Decode("Invalid Argument".to_string());
    assert_eq!(
        worker.on_decoded(Err(error), 1, &mut queue, &mut stats),
        DecodeFollowUp::RecreateDecoder
    );
    assert_eq!(stats.need_idr_signals, 1);
    worker.on_recreated();
    assert!(worker.on_input(delta(), &mut stats).is_none());
}

#[test]
fn errors_that_call_for_another_decoder() {
    for text in [
        "Invalid argument",
        "static AVHWFramesContext failed",
        "invalid handle",
        "Generic error in an external library",
        "Resource temporarily unavailable",
    ] {
        assert!(should_recreate_decoder(&ScrcpyError::Decode(text.to_string())));
    }
    assert!(!should_recreate_decoder(&ScrcpyError::Decode("bad packet".to_string())));
}

#[test]
fn input_that_cannot_be_taken() {
    let mut stats = PipelineStats::default();
    assert_eq!(push_input(SendOutcome::Sent, &mut stats), Ok(()));
    assert_eq!(push_input(SendOutcome::Full, &mut stats), Ok(()));
    assert_eq!(stats.dropped_nals, 1);
    assert_eq!(
        push_input(SendOutcome::Disconnected, &mut stats),
        Err(ScrcpyError::Other("pipeline stopped, unable to push input".to_string()))
    );
    on_uploaded(true, 3, &mut stats);
    assert_eq!((stats.uploaded_frames, stats.last_upload_ms), (1, 3));
    on_uploaded(false, 5, &mut stats);
    assert_eq!((stats.uploaded_frames, stats.last_upload_ms), (1, 3));
    let event = PipelineEvent::ReconfigureReady { generation: 4, width: 1, height: 2 };
    assert_eq!(event.generation(), 4);
    assert_eq!(PipelineConfig::default().frame_queue_capacity, 3);
}

#[test]
fn decoders_are_tried_in_order() {
    let broken = |_: DecoderOutputMode| Err(ScrcpyError::Decode("no".to_string()));
    let works = |_: DecoderOutputMode| Ok("sw");
    let hw = |_: DecoderOutputMode| Ok("hw");
    let mode = DecoderOutputMode::CpuBgra;
    let prefer = DecoderPreference::PreferHardware;
    assert_eq!(DecoderFactory::create(prefer, mode, hw, works), Ok("hw"));
    assert_eq!(DecoderFactory::create(prefer, mode, broken, works), Ok("sw"));
    let force = DecoderPreference::ForceHardware;
    assert!(DecoderFactory::create(force, mode, broken, works).is_err());
    let soft = DecoderPreference::ForceSoftware;
    assert_eq!(DecoderFactory::create(soft, mode, hw, works), Ok("sw"));
    assert_eq!(DecoderFactory::create_from_env(broken, works), Ok("sw"));
    assert_eq!(BackendKind::Software.name(), "ffmpeg-sw");
    assert_eq!(BackendKind::Hardware.name(), "ffmpeg-hw");
}

fn pixels(width: u32, height: u32) -> BgraFrame {
    BgraFrame { data: vec![0; (width * height * 4) as usize], width, height, pts: 5 }
}

#[test]
fn pixels_become_textures_where_textures_are_asked_for() {
    let mut output = BackendOutput::new(BackendKind::Software, DecoderOutputMode::GpuShared);
    output.has_uploader = true;
    let frames = output
        .decode(vec![FfmpegDecodedFrame::CpuBgra(pixels(2, 1))], |f| Ok(f.width as u64 + 40))
        .unwrap();
    assert!(matches!(
        frames[..],
        [DecodedFrame::GpuShared { handle: 42, width: 2, height: 1, pts: 5 }]
    ));
    assert_eq!(output.stats.decoded_frames, 1);
    let error = output
        .decode(vec![FfmpegDecodedFrame::CpuBgra(pixels(2, 1))], |_| Err("lost".to_string()))
        .unwrap_err();
    assert_eq!(error, ScrcpyError::Decode("software uploader failed: lost".to_string()));
    output.has_uploader = false;
    let error = output
        .decode(vec![FfmpegDecodedFrame::CpuBgra(pixels(2, 1))], |_| Ok(1))
        .unwrap_err();
    assert_eq!(error, ScrcpyError::Decode("software uploader unavailable".to_string()));
}

#[test]
fn textures_do_not_become_pixels() {
    let mut output = BackendOutput::new(BackendKind::Hardware, DecoderOutputMode::CpuBgra);
    let gpu = FfmpegDecodedFrame::GpuShared { handle: 1, width: 1, height: 1, pts: 0 };
    let error = output.decode(vec![gpu], |_| Ok(1)).unwrap_err();
    assert_eq!(error, ScrcpyError::Decode("received GPU frame in CpuBgra mode".to_string()));
    let frames = output.decode(vec![FfmpegDecodedFrame::CpuBgra(pixels(1, 1))], |_| Ok(1)).unwrap();
    assert!(matches!(frames[..], [DecodedFrame::CpuBgra(_)]));
}

#[test]
fn codecs_are_chosen_by_mode() {
    let names = hw_candidates(FfmpegDecoderMode::PreferHw);
    assert_eq!(names, ["h264_nvdec", "h264_cuvid", "h264_d3d11va", "h264_qsv"]);
    assert!(hw_candidates(FfmpegDecoderMode::ForceSw).is_empty());
    let found = [false, true, true, false];
    assert_eq!(
        choose_codec(FfmpegDecoderMode::PreferHw, &found, true),
        Ok(CodecChoice::Hardware(1))
    );
    assert_eq!(
        choose_codec(FfmpegDecoderMode::PreferHw, &[false; 4], true),
        Ok(CodecChoice::Software)
    );
    assert_eq!(
        choose_codec(FfmpegDecoderMode::ForceHw, &[false; 4], true),
        Err(ScrcpyError::Decode(
            "force_hw mode enabled, but no hardware decoder found".to_string()
        ))
    );
    assert_eq!(
        choose_codec(FfmpegDecoderMode::PreferHw, &[false; 4], false),
        Err(ScrcpyError::Decode("H264 decoder not found".to_string()))
    );
}

#[test]
fn a_refused_packet_is_offered_once_more() {
    let refusal = Err("Invalid data found".to_string());
    assert!(matches!(FfmpegDecoder::after_send(&[9], &Ok(())), SendStep::Drain));
    match FfmpegDecoder::after_send(&[9], &refusal) {
        SendStep::Retry(bytes) => assert_eq!(bytes, [0, 0, 0, 1, 9]),
        _ => panic!("not offered again"),
    }
    assert!(matches!(FfmpegDecoder::after_send(&[0, 0, 1, 9], &refusal), SendStep::NoFrames));
    assert!(matches!(FfmpegDecoder::after_retry("x", &refusal), SendStep::NoFrames));
    match FfmpegDecoder::after_retry("one", &Err("two".to_string())) {
        SendStep::Fail(e) => assert_eq!(
            e,
            ScrcpyError::Decode("send packet failed: one; retry=two".to_string())
        ),
        _ => panic!("no failure"),
    }
}

#[test]
fn frames_of_a_packet_are_collected() {
    let mut decoder = FfmpegDecoder::new();
    assert!(decoder.begin_packet(&[]).is_none());
    assert_eq!(decoder.begin_packet(&[1, 2]).unwrap(), [1, 2]);
    let direct = ReceiveEvent::Direct { handle: 3, width: 1, height: 1, pts: 0 };
    assert!(matches!(decoder.on_received(direct), DrainStep::More));
    let converted = ReceiveEvent::Converted(Ok(pixels(1, 1)));
    assert!(matches!(decoder.on_received(converted), DrainStep::More));
    match decoder.on_received(ReceiveEvent::Finished) {
        DrainStep::Done(Ok(frames)) => assert_eq!(frames.len(), 2),
        _ => panic!("not done"),
    }
    assert_eq!(decoder.frame_count(), 2);
    let failed = ReceiveEvent::Converted(Err(ScrcpyError::Decode("x".to_string())));
    assert!(matches!(decoder.on_received(failed), DrainStep::Done(Err(_))));
    assert!(decoder.needs_scaler(2, 2, 0));
    decoder.scaler_made(2, 2, 0);
    assert!(!decoder.needs_scaler(2, 2, 0));
    assert!(decoder.needs_scaler(2, 3, 0));
}

#[test]
fn rows_are_packed() {
    let data: Vec<u8> = (0..20).collect();
    assert_eq!(copy_pixel_rows(&data, 10, 2, 2), [0, 1, 2, 3, 4, 5, 6, 7, 10, 11, 12, 13, 14, 15, 16, 17]);
    assert_eq!(copy_pixel_rows(&data, 8, 2, 2), (0..16).collect::<Vec<u8>>());
    assert!(copy_pixel_rows(&data, 10, 2, 0).is_empty());
}

#[test]
fn uploads_take_turns() {
    let mut slots = TextureSlots::new();
    let plan = slots.plan_upload(2, 2, 16).unwrap();
    assert_eq!(plan, UploadPlan { slot: 0, recreate: true });
    slots.texture_made(0, 2, 2);
    slots.frame_uploaded();
    let plan = slots.plan_upload(2, 2, 16).unwrap();
    assert_eq!(plan, UploadPlan { slot: 1, recreate: true });
    slots.frame_uploaded();
    let plan = slots.plan_upload(2, 2, 17).unwrap();
    assert_eq!(plan, UploadPlan { slot: 0, recreate: false });
    assert!(slots.plan_upload(2, 1, 16).unwrap().recreate);
    assert_eq!(
        slots.plan_upload(0, 2, 16).unwrap_err(),
        "invalid frame size: width or height is zero"
    );
    assert_eq!(
        slots.plan_upload(2, 2, 15).unwrap_err(),
        "BGRA data too short: got=15 bytes, expect=16 bytes (2x2x4)"
    );
    assert_eq!(
        slots.plan_upload(65536, 65536, 15).unwrap_err(),
        "frame size overflow (width * height * 4 > u32::MAX)"
    );
    assert!(needs_texture(&None, 1, 1));
    assert!(!needs_texture(&Some((1, 1)), 1, 1));
}

#[test]
fn software_draws_where_the_graphics_card_does_not() {
    let fails = |text: &str| Err::<u8, String>(text.to_string());
    assert_eq!(create_context(|| Ok(1), || Ok(2)), Ok(1));
    assert_eq!(create_context(|| fails("a"), || Ok(2)), Ok(2));
    assert_eq!(
        create_context(|| fails("a"), || fails("b")),
        Err("create D3D11 context failed: hw=a, warp=b".to_string())
    );
}

#[test]
fn pixels_are_swapped_for_display() {
    assert_eq!(bgra_to_rgba(&[1, 2, 3, 4, 5, 6, 7, 8]), [3, 2, 1, 4, 7, 6, 5, 8]);
    assert_eq!(bgra_to_rgba(&bgra_to_rgba(&[1, 2, 3, 4])), [1, 2, 3, 4]);
    let mut ids = FrameCounter::new();
    let frame = DecodedFrame::CpuBgra(BgraFrame {
        data: vec![1, 2, 3, 4],
        width: 1,
        height: 1,
        pts: 9,
    });
    match frame_notice(&frame, 6, &mut ids) {
        FrameNotice::Pixels { frame_id, data, width, height, stride, pixel_format, generation, pts } => {
            assert_eq!(frame_id, 1);
            assert_eq!(data, [3, 2, 1, 4]);
            assert_eq!((width, height, stride, pixel_format), (1, 1, 4, 5));
            assert_eq!((generation, pts), (6, 9));
        }
        other => panic!("{:?}", other),
    }
    assert_eq!(ids.next_frame_id(), 2);
    let gpu = DecodedFrame::GpuShared { handle: 3, width: 1, height: 2, pts: 4 };
    assert!(matches!(
        frame_notice(&gpu, 6, &mut ids),
        FrameNotice::Texture { handle: 3, width: 1, height: 2, generation: 6, pts: 4 }
    ));
    assert_eq!(ids.next_frame_id(), 3);
}

fn gpu(width: u32, height: u32) -> DecodedFrame {
    DecodedFrame::GpuShared { handle: 1, width, height, pts: 0 }
}

fn config(mode: DecoderMode) -> ScrcpyDecodeConfig {
    ScrcpyDecodeConfig { decoder_mode: mode, ..ScrcpyDecodeConfig::default() }
}

#[test]
fn a_new_size_begins_a_new_generation() {
    let mut pipeline = ScrcpyDecodePipeline::new(&config(DecoderMode::PreferHardware));
    assert_eq!(ScrcpyDecodePipeline::frame_size(&gpu(1, 2)), (1, 2));
    pipeline.on_outputs(vec![gpu(1, 2), gpu(1, 2)], false);
    let frames = pipeline.drain_frames();
    assert_eq!(frames.iter().map(|f| f.generation).collect::<Vec<u64>>(), [2]);
    pipeline.on_outputs(vec![gpu(1, 2), gpu(1, 2), gpu(1, 2)], false);
    assert_eq!(pipeline.drain_frames().len(), 2);
    pipeline.on_outputs(vec![gpu(1, 2), gpu(2, 1)], false);
    let frames = pipeline.drain_frames();
    assert_eq!(frames.iter().map(|f| f.generation).collect::<Vec<u64>>(), [3]);
    let events = pipeline.drain_events();
    assert!(matches!(
        events[..],
        [
            ScrcpyDecodeEvent::DecoderStarted { decoder_mode: DecoderMode::PreferHardware },
            ScrcpyDecodeEvent::ResolutionChanged { generation: 2, width: 1, height: 2 },
            ScrcpyDecodeEvent::ResolutionChanged { generation: 3, width: 2, height: 1 },
        ]
    ));
}

fn signals(need_idr: u64, resync: u64) -> PipelineStats {
    PipelineStats {
        need_idr_signals: need_idr,
        resync_signals: resync,
        ..PipelineStats::default()
    }
}

#[test]
fn a_hardware_decoder_gets_time_to_recover() {
    let mut pipeline = ScrcpyDecodePipeline::new(&config(DecoderMode::PreferHardware));
    pipeline.drain_events();
    assert!(pipeline.handle_pipeline_stats(signals(1, 0), 1_000));
    assert!(!pipeline.handle_pipeline_stats(signals(2, 0), 2_000));
    assert!(!pipeline.handle_pipeline_stats(signals(2, 1), 3_000));
    assert!(pipeline.handle_pipeline_stats(signals(3, 1), 4_000));
    pipeline.check_recovery(220_003_999);
    assert!(!pipeline.reconnect_required());
    assert!(!pipeline.handle_pipeline_stats(signals(3, 1), 221_004_000));
    assert!(!pipeline.reconnect_required());
    pipeline.check_recovery(221_004_000);
    assert!(pipeline.reconnect_required());
    assert!(!pipeline.may_pump());
    match &pipeline.drain_events()[..] {
        [ScrcpyDecodeEvent::ReconnectRequired { reason }] => {
            assert_eq!(reason, "hardware recovery timeout: fail_signal=3, waited=221ms")
        }
        other => panic!("{:?}", other),
    }
}

#[test]
fn a_failed_software_decoder_needs_a_new_connection() {
    let mut pipeline = ScrcpyDecodePipeline::new(&config(DecoderMode::ForceSoftware));
    pipeline.drain_events();
    assert!(pipeline.may_pump());
    assert!(!pipeline.handle_pipeline_stats(signals(2, 0), 0));
    assert!(pipeline.reconnect_required());
    match &pipeline.drain_events()[..] {
        [ScrcpyDecodeEvent::ReconnectRequired { reason }] => {
            assert_eq!(reason, "software decode failed: need_idr_signals=2")
        }
        other => panic!("{:?}", other),
    }
}

#[test]
fn an_ended_output_needs_a_new_connection() {
    let mut pipeline = ScrcpyDecodePipeline::new(&config(DecoderMode::ForceHardware));
    pipeline.on_outputs(vec![gpu(1, 1)], true);
    assert!(pipeline.reconnect_required());
    assert_eq!(pipeline.drain_frames().len(), 1);
    match pipeline.drain_events().last() {
        Some(ScrcpyDecodeEvent::ReconnectRequired { reason }) => {
            assert_eq!(reason, "decode output disconnected")
        }
        other => panic!("{:?}", other),
    }
    pipeline.stop();
}

#[test]
fn decoder_settings() {
    assert_eq!(decoder_preference(DecoderMode::ForceHardware), DecoderPreference::ForceHardware);
    let settings = config(DecoderMode::ForceSoftware).pipeline_config();
    assert_eq!(settings.decoder_preference, DecoderPreference::ForceSoftware);
}

#[test]
fn frames_are_handed_on_or_dropped() {
    assert_eq!(hand_on(SendOutcome::Sent, "gone"), Ok(()));
    assert_eq!(hand_on(SendOutcome::Full, "gone"), Ok(()));
    assert_eq!(
        hand_on(SendOutcome::Disconnected, "gone"),
        Err(ScrcpyError::Other("gone".to_string()))
    );
    assert_eq!(frame_handed_on(SendOutcome::Full), Ok(()));
    assert_eq!(
        frame_handed_on(SendOutcome::Disconnected),
        Err(ScrcpyError::Other("decode frame hook disconnected".to_string()))
    );
}

#[test]
fn counters_are_sums_over_a_run() {
    let mut worker = DecodeWorker::new();
    let mut queue = LatestFrameQueue::new(2);
    let mut stats = PipelineStats::default();
    let packet = |is_keyframe| {
        VideoInput::FramedPacket(FramedInputPacket { data: vec![1], is_config: false, is_keyframe })
    };
    let broken = || Err(ScrcpyError::Decode("lost".to_string()));
    let rounds: Vec<(bool, Result<Vec<u8>, ScrcpyError>)> = vec![
        (false, broken()),
        (true, Ok(vec![1])),
        (false, broken()),
        (false, Ok(vec![9])),
        (true, broken()),
        (true, Ok(vec![2, 3, 4])),
        (false, Ok(vec![])),
    ];
    for (is_keyframe, result) in rounds {
        if worker.on_input(packet(is_keyframe), &mut stats).is_some() {
            worker.on_decoded(result, 1, &mut queue, &mut stats);
        }
        assert!(stats.resync_signals <= stats.need_idr_signals + 1);
    }
    assert_eq!((stats.need_idr_signals, stats.resync_signals), (2, 3));
    assert_eq!((stats.decoded_frames, stats.dropped_frames), (4, 2));
}
