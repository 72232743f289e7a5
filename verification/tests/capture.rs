//! Clock divider, capture driver, pipeline and channel behaviour.

use i2s_wav::mic::{compute_clock_divider, PioI2sMic, PioI2sMicProgram};
use i2s_wav::pipeline::{DoubleBufferPipeline, SampleChannel};
use i2s_wav::{CaptureError, ConfigurationError};

#[test]
fn divider_48k_at_125mhz() {
    // Ideal divider: 125 MHz / (48 kHz * 64 * 2) = 20.345...; in 1/256
    // steps that is 5208.33..., so the nearest step is 5208.
    assert_eq!(compute_clock_divider(125_000_000, 48_000), Ok(5208));
}

#[test]
fn divider_within_tolerance() {
    // The documented accuracy: |2 * sys - rate * d| * 1000 <= rate * d,
    // i.e. the achieved sample rate is within 0.1% of the requested one.
    for rate in [8_000u32, 16_000, 22_050, 44_100, 48_000, 96_000] {
        let d = compute_clock_divider(125_000_000, rate).unwrap() as u64;
        let ideal2 = 2u64 * 125_000_000;
        let got = rate as u64 * d;
        let err = if got > ideal2 { got - ideal2 } else { ideal2 - got };
        assert!(err * 1000 <= got, "rate {} divider {} err {}", rate, d, err);
    }
}

#[test]
fn divider_error_cases() {
    assert_eq!(
        compute_clock_divider(125_000_000, 0),
        Err(ConfigurationError::InvalidSampleRate)
    );
    // Divider below 1.0: the engine cannot run faster than the system clock.
    assert_eq!(
        compute_clock_divider(1_000, 48_000),
        Err(ConfigurationError::DividerOutOfRange)
    );
    // Divider beyond the 16.8 register.
    assert_eq!(
        compute_clock_divider(0xFFFF_FFFF, 1),
        Err(ConfigurationError::DividerOutOfRange)
    );
}

#[test]
fn driver_allows_one_outstanding_read() {
    let program = PioI2sMicProgram::new();
    let mut mic = PioI2sMic::new(&program, 125_000_000, 48_000).unwrap();
    assert_eq!(mic.read(), Ok(()));
    assert_eq!(mic.read(), Err(CaptureError::ReadInProgress));
    assert_eq!(mic.complete_read(true), Ok(()));
    assert_eq!(mic.read(), Ok(()));
    assert_eq!(mic.complete_read(false), Err(CaptureError::HardwareFault));
    assert_eq!(mic.complete_read(true), Err(CaptureError::NoPendingRead));
}

#[test]
fn driver_rejects_bad_rates() {
    let program = PioI2sMicProgram::new();
    assert!(matches!(
        PioI2sMic::new(&program, 125_000_000, 0),
        Err(ConfigurationError::InvalidSampleRate)
    ));
    assert!(matches!(
        PioI2sMic::new(&program, 1_000, 48_000),
        Err(ConfigurationError::DividerOutOfRange)
    ));
}

#[test]
fn channel_second_send_blocks_until_receive() {
    // Capacity one: a second send does not go through, nothing changes,
    // and after one receive the suspended send succeeds.
    let mut pipeline = DoubleBufferPipeline::new(4);
    let mut channel = SampleChannel::new();

    pipeline.fill(vec![1, 2, 3, 4]).unwrap();
    let first = pipeline.handoff().unwrap();
    assert!(channel.try_send(first).is_ok());

    pipeline.fill(vec![5, 6, 7, 8]).unwrap();
    let second = pipeline.handoff().unwrap();
    let second = match channel.try_send(second) {
        Ok(()) => panic!("second send must not be accepted before a receive"),
        Err(back) => back, // the sender keeps its buffer, suspended
    };

    let received = channel.try_receive().expect("first buffer must arrive");
    assert_eq!(received.id(), 0);
    assert_eq!(received.words()[0], 1);

    assert!(channel.try_send(second).is_ok());
    let received = channel.try_receive().expect("second buffer must arrive");
    assert_eq!(received.id(), 1);
    assert_eq!(received.words()[0], 5);

    assert!(channel.try_receive().is_none());
}

#[test]
fn pipeline_never_hands_off_stale_buffers() {
    let mut pipeline = DoubleBufferPipeline::new(2);

    // Nothing filled yet: nothing to hand off.
    assert!(matches!(pipeline.handoff(), Err(CaptureError::BufferNotFilled)));

    pipeline.fill(vec![10, 11]).unwrap();
    // A completed buffer is never overwritten before its hand-off.
    assert_eq!(pipeline.fill(vec![90, 91]), Err(CaptureError::BufferAlreadyFilled));

    let b0 = pipeline.handoff().unwrap();
    assert_eq!(b0.id(), 0);
    assert!(!b0.is_fresh());

    // The same buffer cannot go to storage again without a fresh fill.
    assert!(matches!(pipeline.handoff(), Err(CaptureError::BufferNotFilled)));

    pipeline.fill(vec![20, 21]).unwrap();
    let b1 = pipeline.handoff().unwrap();
    assert_eq!(b1.id(), 1); // strict alternation

    // Buffer 0 is still away: its turn cannot be filled.
    assert_eq!(pipeline.fill(vec![30, 31]), Err(CaptureError::BufferInTransit));

    // Recycling brings it home and capture resumes.
    pipeline.recycle(b0).unwrap();
    pipeline.fill(vec![30, 31]).unwrap();
    let b0 = pipeline.handoff().unwrap();
    assert_eq!(b0.id(), 0);
    assert_eq!(b0.words()[0], 30);

    pipeline.recycle(b1).unwrap();
    pipeline.recycle(b0).unwrap();
    pipeline.fill(vec![40, 41]).unwrap();
    let b1b = pipeline.handoff().unwrap();
    assert_eq!(b1b.id(), 1);
    assert_eq!(b1b.words()[0], 40);
}
