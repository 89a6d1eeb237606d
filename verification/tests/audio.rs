use librespot_uwp::backend::{
    ActiveSink, AudioCounters, BackendSelection, CreationStep, ProbeOutcome, SelectionStart,
    SinkCreation, SinkFailure, UwpCall, UwpReply, UwpSink, UwpStep, WindowsAudioBackend, CHANNELS,
    SAMPLE_RATE,
};
use librespot_uwp::effects::{
    effect_calls, effect_gains, first_filter, preset_gain, renderer_update, send_matrix,
    taken_gains, DelayLine, EffectCall, EffectsConfig, EffectsPreset, EffectsRun, EffectsStep,
    SendTarget, VoiceEffect,
};
use librespot_uwp::ffi_types::{AudioFormat, Bitrate, EventType};
use librespot_uwp::ring::{
    librespot_audio_get_buffer, librespot_audio_get_capacity, librespot_audio_get_state,
    librespot_audio_get_write_cursor, librespot_audio_set_read_cursor,
    librespot_audio_set_read_sequence, selection_changed, Observation, RingBuffer, RingBufferSink,
    RingSnapshot, RingWrite, StateRead, StateReader,
};
use librespot_uwp::sink::{SinkError, WritePosition};
use librespot_uwp::wasapi::{
    endpoint_for, stream_format, to_wide, ActivationWait, WasapiCall, WasapiOpenCall,
    WasapiOpenReply, WasapiOpenStep, WasapiOpening, WasapiSink, WasapiStep, DEFAULT_RENDER_DEVICE,
};
use librespot_uwp::windows_native::{
    check_hr, handler_activate_completed, handler_query_interface, query_outcome, succeeded, Guid,
    HandlerReferences, E_NOINTERFACE, E_POINTER, IID_ACTIVATION_HANDLER, IID_AUDIO_CLIENT,
    RPC_E_CHANGED_MODE,
};
use librespot_uwp::xaudio2::{
    Voice, XAudio2OpenCall, XAudio2OpenStep, XAudio2Opening, MAX_QUEUE_MILLISECONDS,
    PRE_ROLL_MILLISECONDS, SUBMISSION_CHUNK_MILLISECONDS, XAUDIO2_DEFAULT_PROCESSOR,
    XAUDIO2_VOICE_NOPITCH, XAUDIO2_VOICE_NOSRC,
};
use librespot_uwp::xaudio2_queue::{
    XAudio2Reply, XAudio2Run, XAudio2Sink, XAudio2Stage, XAudio2Step, MAX_SPINS,
};

#[test]
fn backend_values_are_stable_for_ffi() {
    assert_eq!(WindowsAudioBackend::RingBuffer as u32, 0);
    assert_eq!(WindowsAudioBackend::Wasapi as u32, 1);
    assert_eq!(WindowsAudioBackend::XAudio2 as u32, 2);
    assert_eq!(WindowsAudioBackend::from_raw(99), None);
    assert_eq!(
        BackendSelection::new().selected_backend(),
        WindowsAudioBackend::XAudio2
    );
}

#[test]
fn backends_and_numbers_stand_for_each_other() {
    for value in 0..3 {
        assert_eq!(WindowsAudioBackend::from_raw(value).unwrap().as_raw(), value);
    }
    assert_eq!(WindowsAudioBackend::Wasapi.name(), "Wasapi");
}

#[test]
fn ring_backend_allocates_its_managed_player_buffer() {
    let mut ring = RingBuffer::new();
    assert!(librespot_audio_get_buffer(&ring).is_none());
    assert!(ring.ensure_buffer_allocated());
    assert!(librespot_audio_get_buffer(&ring).is_some());
    assert_eq!(librespot_audio_get_capacity(), 128 * 1024);
}

#[test]
fn a_blocked_ring_write_yields_to_a_backend_change() {
    assert!(!selection_changed(7, 7));
    assert!(selection_changed(7, 8));
}

#[test]
fn source_voice_uses_an_exact_unpitched_clock() {
    assert_eq!(XAUDIO2_DEFAULT_PROCESSOR, 0x0000_0001);
    assert_eq!(XAUDIO2_VOICE_NOPITCH | XAUDIO2_VOICE_NOSRC, 0x0006);
}

#[test]
fn queue_depth_matches_the_managed_backends_resilience() {
    let pre_roll_frames = 44_100 * PRE_ROLL_MILLISECONDS / 1_000;
    let maximum_frames = 44_100 * MAX_QUEUE_MILLISECONDS / 1_000;
    let chunk_frames = 44_100 * SUBMISSION_CHUNK_MILLISECONDS / 1_000;
    assert_eq!(pre_roll_frames, 8_820);
    assert_eq!(maximum_frames, 22_050);
    assert_eq!(maximum_frames / chunk_frames, 25);
    assert!(maximum_frames / chunk_frames < 64);
    let sink: XAudio2Sink<f32> = XAudio2Sink::new(44_100, 2);
    assert_eq!(sink.pre_roll_frames, 8_820);
    assert_eq!(sink.maximum_queue_frames, 22_050);
    assert_eq!(sink.submission_chunk_frames, 882);
}

#[test]
fn preset_curves_match_the_managed_backend() {
    assert_eq!(preset_gain(EffectsPreset::BassBoost, 100) as f32 * 0.5, 4.0);
    assert_eq!(preset_gain(EffectsPreset::VocalBoost, 2_000) as f32 * 1.0, 5.0);
    assert_eq!(preset_gain(EffectsPreset::Warm, 10_000) as f32 * 1.0, -2.0);
}

#[test]
fn filters_have_the_gains_of_their_preset() {
    assert_eq!(effect_gains(EffectsPreset::VocalBoost), Some([-3, -1, 3, 5, 2]));
    assert_eq!(effect_gains(EffectsPreset::Disabled), Some([0; 5]));
    assert_eq!(effect_gains(EffectsPreset::Equalizer), None);
    assert_eq!(first_filter(3, 2), 5);
    assert_eq!(first_filter(4, 2), 0);
}

#[test]
fn effects_are_stored_with_a_new_version() {
    let mut config = EffectsConfig::disabled(1.0f32, 0.0);
    assert!(config.is_passthrough());
    config.set_effects(4, 0.5, true, false, true, taken_gains(&[1.0, 2.0], 0.0));
    assert_eq!(config.preset, EffectsPreset::Equalizer);
    assert_eq!(config.strength, 0.5);
    assert_eq!(config.equalizer_gains_db, [1.0, 2.0, 0.0, 0.0, 0.0]);
    assert_eq!(config.version, 1);
    assert!(!config.is_passthrough());
    config.set_effects(9, 0.5, false, false, false, [0.0; 5]);
    assert_eq!(config.preset, EffectsPreset::Disabled);
    config.version = u64::MAX;
    config.set_effects(0, 1.0, false, false, false, [0.0; 5]);
    assert_eq!(config.version, 0);
}

#[test]
fn effect_calls_end_with_the_commit() {
    let mut config = EffectsConfig::disabled(1, 0);
    config.set_effects(1, 1, false, true, false, [0; 5]);
    assert_eq!(
        effect_calls(&config),
        vec![
            EffectCall::SetParameters(VoiceEffect::Equalizer),
            EffectCall::Enable(VoiceEffect::Equalizer),
            EffectCall::Disable(VoiceEffect::Echo),
            EffectCall::SetParameters(VoiceEffect::Reverb),
            EffectCall::Enable(VoiceEffect::Reverb),
            EffectCall::SetSendGain(SendTarget::Mastering),
            EffectCall::SetSendGain(SendTarget::Reverb),
            EffectCall::Disable(VoiceEffect::Limiter),
            EffectCall::SetHeadroom,
            EffectCall::Commit,
        ]
    );
}

#[test]
fn effects_apply_once_per_version() {
    let mut config = EffectsConfig::disabled(1, 0);
    config.version = 5;
    assert!(EffectsRun::begin(5, &config).is_none());
    let mut run = EffectsRun::begin(4, &config).unwrap();
    let mut calls = 0;
    let applied = loop {
        calls += 1;
        match run.advance(0) {
            EffectsStep::Call => continue,
            EffectsStep::Applied(version) => break version,
            EffectsStep::Failed(_) => panic!("no call failed"),
        }
    };
    assert_eq!((applied, calls), (5, 8));
    let mut failing = EffectsRun::begin(4, &config).unwrap();
    match failing.advance(-1) {
        EffectsStep::Failed(error) => {
            assert_eq!(error.message(), "IXAudio2Voice effect state failed (0xFFFFFFFF)");
        }
        _ => panic!("a failing call ends the run"),
    }
    assert_eq!(failing.call(), EffectCall::Disable(VoiceEffect::Equalizer));
}

#[test]
fn a_renderer_builds_what_is_on() {
    let mut config = EffectsConfig::disabled(1, 0);
    config.set_effects(0, 1, true, false, false, [0; 5]);
    assert!(renderer_update(1, &config).is_none());
    let update = renderer_update(0, &config).unwrap();
    assert!(update.echo_line && !update.reverb_line && !update.equalizers);
}

#[test]
fn matrices_send_channels_to_themselves() {
    assert_eq!(send_matrix(2, 5, 0), vec![5, 0, 0, 5]);
    assert_eq!(send_matrix(3, 1, 0), vec![1, 0, 0, 0, 1, 0, 0, 0, 1]);
}

#[test]
fn delay_lines_delay_by_their_length() {
    let mut line = DelayLine::silent(2, 1, 0);
    assert!(!line.is_empty());
    let mut out = Vec::new();
    for sample in 1..6 {
        out.push(line.delayed());
        line.exchange(sample);
    }
    assert_eq!(out, vec![0, 0, 1, 2, 3]);
    line.reset(9);
    assert_eq!(line.delayed(), 9);
    assert!(DelayLine::<i32>::none().is_empty());
    let shortest = DelayLine::silent(0, 2, 7);
    assert_eq!(shortest.delayed(), 7);
}

fn written(sink: &RingBufferSink, ring: &mut RingBuffer, position: &mut WritePosition, data: &[u8]) {
    assert_eq!(sink.write_bytes(ring, position, 1, data).unwrap(), RingWrite::Written);
}

#[test]
fn ring_writes_wrap_and_wait() {
    let mut ring = RingBuffer::new();
    let mut position = WritePosition::new();
    let sink = RingBufferSink::new(AudioFormat::S16, 1);
    let missing = sink.write_bytes(&mut ring, &mut position, 1, &[1]).unwrap_err();
    assert_eq!(missing.message(), "ring buffer was not allocated");
    assert!(matches!(missing, SinkError::NotConnected(_)));
    ring.ensure_buffer_allocated();
    let capacity = librespot_audio_get_capacity();
    let filler = vec![7u8; capacity - 2];
    written(&sink, &mut ring, &mut position, &filler);
    assert_eq!(
        sink.write_bytes(&mut ring, &mut position, 1, &[1, 2, 3]).unwrap(),
        RingWrite::Wait
    );
    assert_eq!(
        sink.write_bytes(&mut ring, &mut position, 2, &[1, 2, 3]).unwrap(),
        RingWrite::Yielded
    );
    librespot_audio_set_read_sequence(&mut ring, (capacity - 2) as u64);
    written(&sink, &mut ring, &mut position, &[1, 2, 3]);
    let buffer = librespot_audio_get_buffer(&ring).unwrap();
    assert_eq!((buffer[capacity - 2], buffer[capacity - 1], buffer[0]), (1, 2, 3));
    assert!(buffer[1..capacity - 2].iter().all(|byte| *byte == 7));
    assert_eq!(librespot_audio_get_write_cursor(&ring), 1);
    assert_eq!(position.total, capacity + 1);
    librespot_audio_set_read_cursor(&mut ring, capacity - 1);
    librespot_audio_set_read_sequence(&mut ring, u64::MAX);
    assert!(sink.backend_selection_changed(9));
}

#[test]
fn ring_generations_start_at_the_next_byte() {
    let mut ring = RingBuffer::new();
    ring.ensure_buffer_allocated();
    let mut position = WritePosition::new();
    let sink = RingBufferSink::new(AudioFormat::F32, 1);
    written(&sink, &mut ring, &mut position, &[0; 10]);
    assert_eq!(ring.begin_generation(), 1);
    let (state, version) = librespot_audio_get_state(&ring);
    assert_eq!(
        state,
        RingSnapshot { generation: 1, generation_start_sequence: 10, write_sequence: 10 }
    );
    assert_eq!(version, 2);
}

#[test]
fn torn_states_are_read_again() {
    let seen = RingSnapshot { generation: 1, generation_start_sequence: 2, write_sequence: 3 };
    let mut reader = StateReader::new();
    assert_eq!(reader.observe(Observation { before: 1, seen, after: 1 }), StateRead::Retry);
    assert_eq!(reader.observe(Observation { before: 2, seen, after: 4 }), StateRead::Retry);
    assert_eq!(
        reader.observe(Observation { before: 4, seen, after: 4 }),
        StateRead::Consistent(seen)
    );
    assert_eq!(reader.observe(Observation { before: 5, seen, after: 5 }), StateRead::TakeAnything);
}

#[test]
fn codes_are_reported_in_hexadecimal() {
    assert!(succeeded(0) && !succeeded(-1));
    assert!(check_hr("Call", 1).is_ok());
    let error = check_hr("Call", RPC_E_CHANGED_MODE).unwrap_err();
    assert_eq!(error.message(), "Call failed (0x80010106)");
    assert_eq!(query_outcome(0, true), Err(E_POINTER));
    assert_eq!(query_outcome(-5, true), Err(-5));
    assert_eq!(query_outcome(0, false), Ok(()));
}

#[test]
fn guids_keep_their_value() {
    let guid = Guid::from_u128(IID_AUDIO_CLIENT);
    assert_eq!(guid.data1, 0x1cb9ad4c);
    assert_eq!(guid.data2, 0xdbfa);
    assert_eq!(guid.data3, 0x4c32);
    assert_eq!(guid.data4, [0xb1, 0x78, 0xc2, 0xf5, 0x68, 0xa7, 0x03, 0xb2]);
    assert_eq!(guid.to_u128(), IID_AUDIO_CLIENT);
}

#[test]
fn the_activation_handler_counts_and_answers() {
    let known = Guid::from_u128(IID_ACTIVATION_HANDLER);
    assert_eq!(handler_query_interface(Some(known), true), 0);
    assert_eq!(
        handler_query_interface(Some(Guid::from_u128(IID_AUDIO_CLIENT)), true),
        E_NOINTERFACE
    );
    assert_eq!(handler_query_interface(None, true), E_POINTER);
    let mut references = HandlerReferences::new();
    assert_eq!(references.add_ref(), 2);
    assert_eq!(references.release(), 1);
    assert_eq!(references.release(), 0);
    assert_eq!(handler_activate_completed(None), E_POINTER);
    assert_eq!(handler_activate_completed(Some((0, -7))), -7);
    assert_eq!(handler_activate_completed(Some((-3, 0))), -3);
}

#[test]
fn devices_are_named_in_wide_text() {
    assert_eq!(endpoint_for(""), DEFAULT_RENDER_DEVICE);
    assert_eq!(endpoint_for("abc"), "abc");
    assert_eq!(to_wide("a\u{1f600}"), vec![0x61, 0xd83d, 0xde00, 0]);
    let format = stream_format(44_100, 2);
    assert_eq!((format.block_align, format.average_bytes_per_sec), (8, 352_800));
}

fn wasapi_reply(code: i32, is_null: bool, value: u32) -> WasapiOpenReply {
    WasapiOpenReply { code, is_null, value, wait: ActivationWait::Completed }
}

#[test]
fn wasapi_opens_call_by_call() {
    let mut opening = WasapiOpening::begin(2);
    let mut calls = Vec::new();
    let sink = loop {
        calls.push(opening.call);
        match opening.advance(wasapi_reply(0, false, 4_410)) {
            WasapiOpenStep::Call => continue,
            WasapiOpenStep::Ready(sink) => break sink,
            WasapiOpenStep::Failed { .. } => panic!("every call succeeded"),
        }
    };
    assert_eq!(calls.first(), Some(&WasapiOpenCall::RoInitialize));
    assert_eq!(sink.buffer_frames, 4_410);
    assert!(!sink.running);
    let mut refused = WasapiOpening::begin(2);
    assert!(matches!(
        refused.advance(wasapi_reply(-1, false, 0)),
        WasapiOpenStep::Failed { uninitialize: false, .. }
    ));
    let mut late = WasapiOpening::begin(2);
    late.advance(wasapi_reply(0, false, 0));
    late.advance(wasapi_reply(0, false, 0));
    let reply = WasapiOpenReply { code: 0, is_null: false, value: 0, wait: ActivationWait::TimedOut };
    match late.advance(reply) {
        WasapiOpenStep::Failed { error, uninitialize } => {
            assert!(uninitialize);
            assert!(!error.message().is_empty());
        }
        _ => panic!("a wait that times out ends the opening"),
    }
}

#[test]
fn wasapi_writes_as_much_as_there_is_room_for() {
    let mut sink = WasapiSink { buffer_frames: 4, channels: 2, running: true, ro_initialized: true };
    let misaligned = sink.write_f32(3).unwrap_err();
    assert_eq!(
        misaligned.message(),
        "WASAPI packet was not aligned to a complete audio frame"
    );
    let mut run = sink.write_f32(12).unwrap().unwrap();
    let mut copied = Vec::new();
    let mut rounds = 0;
    loop {
        rounds += 1;
        assert!(rounds < 100);
        let padding = if rounds % 2 == 0 { 0 } else { 2 };
        if run.call == WasapiCall::ReleaseBuffer {
            copied.push(sink.copy_range(&run));
        }
        match sink.advance(&mut run, 0, padding) {
            WasapiStep::Call => continue,
            WasapiStep::Done => break,
            WasapiStep::Failed(_) => panic!("no call failed"),
        }
    }
    let mut next = 0;
    for (start, count) in copied {
        assert_eq!(start, next);
        next = start + count;
    }
    assert_eq!(next, 12);
    assert!(sink.start().is_none());
    assert!(sink.stop().is_some());
    assert_eq!(sink.flush().call, WasapiCall::Stop);
}

#[test]
fn xaudio2_opens_call_by_call_and_cleans_up() {
    let mut opening = XAudio2Opening::begin();
    while opening.call != XAudio2OpenCall::ApplyEffects {
        assert!(matches!(opening.advance(0, false), XAudio2OpenStep::Call));
    }
    assert!(matches!(opening.effects_applied(Ok(())), XAudio2OpenStep::Ready));
    match opening.effects_applied(Err(SinkError::not_connected("no"))) {
        XAudio2OpenStep::Failed { destroy, stop_engine, uninitialize, .. } => {
            assert_eq!(destroy, vec![Voice::Source, Voice::Reverb, Voice::Mastering]);
            assert!(stop_engine && uninitialize);
        }
        _ => panic!("failing effects end the opening"),
    }
    let mut nothing = XAudio2Opening::begin();
    nothing.advance(RPC_E_CHANGED_MODE, false);
    match nothing.advance(0, true) {
        XAudio2OpenStep::Failed { error, destroy, uninitialize, .. } => {
            assert_eq!(error.message(), "XAudio2 returned no engine");
            assert!(destroy.is_empty() && !uninitialize);
        }
        _ => panic!("an engine is needed"),
    }
}

fn reply(code: i32, queued: u32) -> XAudio2Reply {
    XAudio2Reply { code, queued, effects: None }
}

/// A voice that plays nothing until it is started, and one buffer per look then.
fn drive(
    sink: &mut XAudio2Sink<u32>,
    run: &mut XAudio2Run<u32>,
    mut step: XAudio2Step,
    voice: &mut Vec<Vec<u32>>,
    played: &mut Vec<u32>,
) -> Result<(), String> {
    let mut rounds = 0;
    loop {
        rounds += 1;
        assert!(rounds < 10_000);
        match step {
            XAudio2Step::Done => return Ok(()),
            XAudio2Step::Failed(error) => return Err(error.message().clone()),
            XAudio2Step::Call => {}
        }
        let queued = match run.stage {
            XAudio2Stage::Submit => {
                voice.push(run.chunk.clone());
                0
            }
            XAudio2Stage::FirstState | XAudio2Stage::CapacityState | XAudio2Stage::DrainState => {
                if sink.voice_started && !voice.is_empty() {
                    played.extend(voice.remove(0));
                }
                voice.len() as u32
            }
            _ => 0,
        };
        step = sink.advance(run, reply(0, queued));
    }
}

#[test]
fn every_sample_is_played_once_and_in_order() {
    let mut sink: XAudio2Sink<u32> = XAudio2Sink::new(1_000, 2);
    assert_eq!((sink.submission_chunk_frames, sink.pre_roll_frames), (20, 200));
    let (mut voice, mut played, mut next) = (Vec::new(), Vec::new(), 0u32);
    for packet in 0..30 {
        let samples: Vec<u32> = (next..next + 60 + 2 * packet).collect();
        next += 60 + 2 * packet;
        let (mut run, step) = sink.write_f32(samples);
        drive(&mut sink, &mut run, step, &mut voice, &mut played).unwrap();
        assert!(sink.queued_frames <= sink.maximum_queue_frames);
    }
    assert!(sink.voice_started);
    let (mut run, step) = sink.stop();
    drive(&mut sink, &mut run, step, &mut voice, &mut played).unwrap();
    assert_eq!(played, (0..next).collect::<Vec<u32>>());
    assert!(!sink.running && !sink.voice_started);
    assert_eq!(sink.queued_frames, 0);
}

#[test]
fn xaudio2_reports_what_fails() {
    let mut sink: XAudio2Sink<u32> = XAudio2Sink::new(1_000, 2);
    let (_, step) = sink.write_f32(vec![1]);
    match step {
        XAudio2Step::Failed(error) => {
            assert_eq!(
                error.message(),
                "XAudio2 packet was not aligned to a complete audio frame"
            );
            assert!(matches!(error, SinkError::InvalidParams(_)));
        }
        _ => panic!("half a frame is refused"),
    }
    let (mut run, _) = sink.write_f32(vec![0; 1_200]);
    let mut last = String::new();
    for _ in 0..200_000u32 {
        let queued = sink.queued_buffers.len() as u32;
        match sink.advance(&mut run, reply(0, queued)) {
            XAudio2Step::Call => {}
            XAudio2Step::Done => break,
            XAudio2Step::Failed(error) => {
                assert!(matches!(error, SinkError::OnWrite(_)));
                last = error.message().clone();
                break;
            }
        }
    }
    assert_eq!(last, "XAudio2 queue did not make room for PCM within 30 seconds");
    assert_eq!(MAX_SPINS, 30_000);
    let (mut run, _) = sink.flush();
    assert_eq!(run.stage, XAudio2Stage::StopVoice);
    match sink.advance(&mut run, reply(-1, 0)) {
        XAudio2Step::Failed(error) => {
            assert_eq!(error.message(), "IXAudio2SourceVoice::Stop failed (0xFFFFFFFF)");
        }
        _ => panic!("the call failed"),
    }
    assert!(matches!(sink.advance(&mut run, reply(0, 0)), XAudio2Step::Call));
    assert!(matches!(sink.advance(&mut run, reply(0, 0)), XAudio2Step::Done));
    assert_eq!(sink.queued_buffers.len(), 0);
}

#[test]
fn an_empty_queue_counts_as_one_underrun() {
    let mut sink: XAudio2Sink<u32> = XAudio2Sink::new(1_000, 1);
    sink.running = true;
    sink.voice_started = true;
    for _ in 0..2 {
        let (mut run, _) = sink.write_f32(vec![1]);
        assert_eq!(run.stage, XAudio2Stage::ApplyEffects);
        sink.advance(&mut run, reply(0, 0));
        assert!(matches!(sink.advance(&mut run, reply(0, 0)), XAudio2Step::Done));
    }
    assert_eq!(sink.underruns, 1);
    assert!(sink.underrun_reported);
    let (mut run, _) = sink.write_f32(vec![1]);
    let failing = XAudio2Reply {
        code: 0,
        queued: 0,
        effects: Some(SinkError::not_connected("effects")),
    };
    assert!(matches!(sink.advance(&mut run, failing), XAudio2Step::Failed(_)));
}

#[test]
fn draining_gives_up_after_thirty_seconds() {
    let mut sink: XAudio2Sink<u32> = XAudio2Sink::new(1_000, 1);
    sink.running = true;
    sink.voice_started = true;
    let (mut run, _) = sink.stop();
    let message = loop {
        match sink.advance(&mut run, reply(0, 1)) {
            XAudio2Step::Call => {}
            XAudio2Step::Failed(error) => break error.message().clone(),
            XAudio2Step::Done => panic!("the voice never released its buffers"),
        }
    };
    assert_eq!(message, "XAudio2 did not release submitted PCM within 30 seconds");
}

#[test]
fn a_backend_is_chosen_once_it_works() {
    let mut selection = BackendSelection::new();
    assert!(matches!(
        selection.begin_set_backend(7, String::new(), true),
        SelectionStart::Rejected
    ));
    assert_eq!(
        selection.librespot_audio_get_last_error().as_deref(),
        Some("Unknown audio backend value 7")
    );
    assert!(matches!(
        selection.begin_set_backend(0, String::new(), false),
        SelectionStart::Rejected
    ));
    assert_eq!(
        selection.librespot_audio_get_last_error().as_deref(),
        Some("Unable to allocate the managed ring buffer")
    );
    let request = match selection.begin_set_backend(1, "de\"v\0".to_owned(), true) {
        SelectionStart::Probe(request) => request,
        _ => panic!("a new choice is tried out"),
    };
    assert!(request.changed);
    assert!(!selection.finish_set_backend(request, ProbeOutcome::Fails("no".to_owned()), true));
    assert_eq!(
        selection.librespot_audio_get_last_error().as_deref(),
        Some("Audio backend probe failed for Wasapi, device=\"de\\\"v\\0\": no")
    );
    assert_eq!(selection.librespot_audio_get_backend(), 2);
    let request = match selection.begin_set_backend(1, "dev".to_owned(), true) {
        SelectionStart::Probe(request) => request,
        _ => panic!("a new choice is tried out"),
    };
    assert!(selection.finish_set_backend(request, ProbeOutcome::Works, true));
    assert_eq!(selection.version, 2);
    assert_eq!(selection.selected_backend(), WindowsAudioBackend::Wasapi);
    assert_eq!(selection.librespot_audio_get_last_error(), None);
    assert!(matches!(
        selection.begin_set_backend(1, "dev".to_owned(), true),
        SelectionStart::Unchanged
    ));
    let request = match selection.begin_set_backend(2, "dev".to_owned(), true) {
        SelectionStart::Probe(request) => request,
        _ => panic!("a new choice is tried out"),
    };
    assert!(!selection.finish_set_backend(request, ProbeOutcome::Works, false));
    assert_eq!(
        selection.librespot_audio_get_last_error().as_deref(),
        Some("Unable to update the selected audio output device")
    );
    selection.last_error = "a\0b".to_owned();
    assert_eq!(selection.librespot_audio_get_last_error(), None);
}

fn failure(message: &str) -> Result<(), SinkFailure> {
    Err(SinkFailure { error: SinkError::not_connected(message), shown: format!("<{message}>") })
}

#[test]
fn a_rejected_device_is_tried_with_the_stand_in() {
    let (mut creation, step) =
        SinkCreation::create_active(WindowsAudioBackend::XAudio2, "dev".to_owned());
    assert!(matches!(step, CreationStep::Open));
    assert_eq!(creation.opening, ActiveSink::XAudio2);
    assert!(matches!(creation.opened(failure("one")), CreationStep::Open));
    assert_eq!(creation.opening, ActiveSink::XAudio2Endpoint);
    match creation.opened(failure("two")) {
        CreationStep::Failed(error) => assert_eq!(
            error.message(),
            "XAudio2 endpoint failed (<one>); compatibility endpoint failed (<two>)"
        ),
        _ => panic!("both failed"),
    }
    let (mut unnamed, _) = SinkCreation::create_active(WindowsAudioBackend::XAudio2, String::new());
    match unnamed.opened(failure("one")) {
        CreationStep::Failed(error) => assert_eq!(error.message(), "one"),
        _ => panic!("there is no device to try again"),
    }
    assert!(SinkCreation::probe_ring(true).is_ok());
    assert_eq!(
        SinkCreation::probe_ring(false).unwrap_err().message(),
        "unable to allocate the managed ring buffer"
    );
}

fn ok() -> UwpReply {
    UwpReply { result: Ok(()), generation: 0 }
}

#[test]
fn live_changes_keep_the_sink_writable() {
    let mut counters = AudioCounters { native_generation: 0, written: WritePosition::new() };
    let mut sink = UwpSink::open(AudioFormat::F64);
    let (mut run, step) =
        sink.start(&mut counters, 1, WindowsAudioBackend::Wasapi, String::new());
    assert!(matches!(step, UwpStep::Call));
    assert_eq!(run.plan.call, UwpCall::OpenReplacement);
    assert!(matches!(sink.advance(&mut counters, &mut run, ok()), UwpStep::Call));
    assert_eq!(run.plan.call, UwpCall::StartActive);
    assert!(matches!(sink.advance(&mut counters, &mut run, ok()), UwpStep::Done));
    assert!(sink.running);

    let (mut run, _) = sink.write(
        &mut counters,
        2,
        WindowsAudioBackend::XAudio2,
        String::new(),
        false,
        100,
    );
    let mut calls = vec![run.plan.call];
    while let UwpStep::Call = sink.advance(&mut counters, &mut run, ok()) {
        calls.push(run.plan.call);
    }
    assert_eq!(
        calls,
        vec![
            UwpCall::OpenReplacement,
            UwpCall::StartReplacement,
            UwpCall::StopPrevious,
            UwpCall::WriteNative
        ]
    );
    assert_eq!(counters.written.total, 800);
    assert_eq!(sink.active, ActiveSink::XAudio2);

    let (mut run, _) =
        sink.write(&mut counters, 3, WindowsAudioBackend::Wasapi, String::new(), false, 100);
    let refused = UwpReply { result: failure("closed"), generation: 0 };
    match sink.advance(&mut counters, &mut run, refused) {
        UwpStep::Failed(error) => assert_eq!(error.message(), "closed"),
        _ => panic!("the replacement could not be opened"),
    }
    assert_eq!(sink.active, ActiveSink::XAudio2);

    let (_, step) =
        sink.write(&mut counters, 2, WindowsAudioBackend::XAudio2, String::new(), true, 0);
    match step {
        UwpStep::Failed(error) => assert_eq!(
            error.message(),
            "native Windows PCM backends do not accept passthrough packets"
        ),
        _ => panic!("only the ring passes packets through"),
    }
    let (mut run, step) =
        sink.begin_generation(&mut counters, 2, WindowsAudioBackend::XAudio2, String::new());
    assert!(matches!(step, UwpStep::Call));
    assert_eq!(run.plan.call, UwpCall::FlushActive);
    match sink.advance(&mut counters, &mut run, UwpReply { result: failure("x"), generation: 9 }) {
        UwpStep::Generation(generation) => assert_eq!(generation, 1),
        _ => panic!("a generation begins whether or not the flush works"),
    }
    let (mut run, _) = sink.stop(&counters);
    assert!(matches!(sink.advance(&mut counters, &mut run, ok()), UwpStep::Done));
    assert!(!sink.running);
}

#[test]
fn the_ring_needs_no_opening() {
    let mut counters = AudioCounters { native_generation: 4, written: WritePosition::new() };
    let mut sink = UwpSink::open(AudioFormat::S16);
    let (mut run, step) =
        sink.write(&mut counters, 1, WindowsAudioBackend::RingBuffer, String::new(), true, 0);
    assert!(matches!(step, UwpStep::Call));
    assert_eq!(run.plan.call, UwpCall::WriteRing);
    assert!(matches!(sink.advance(&mut counters, &mut run, ok()), UwpStep::Done));
    let (mut run, _) =
        sink.begin_generation(&mut counters, 1, WindowsAudioBackend::RingBuffer, String::new());
    assert_eq!(run.plan.call, UwpCall::RingGeneration);
    let began = UwpReply { result: Ok(()), generation: 12 };
    assert!(matches!(
        sink.advance(&mut counters, &mut run, began),
        UwpStep::Generation(12)
    ));
    assert_eq!(counters.native_generation, 4);
    assert_eq!((SAMPLE_RATE, CHANNELS), (44_100, 2));
}

#[test]
fn formats_have_their_sizes_and_numbers() {
    assert_eq!(AudioFormat::S24_3.bytes_per_sample(), 3);
    assert_eq!(AudioFormat::S16 as i32, 5);
    assert_eq!(Bitrate::B160.as_raw(), 160);
    assert_eq!(Bitrate::from_raw(320), Some(Bitrate::B320));
    assert_eq!(Bitrate::from_raw(1), None);
    assert_eq!(EventType::LogMessage as i32, 0);
    assert_eq!(EventType::PlaybackAuthorizationRejected as i32, 26);
}
