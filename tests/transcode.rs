use anni_store::transcode::{Codec, TranscodeError};
use anni_store::{AacTranscoder, AudioQuality, FlacTranscoder, OpusTranscoder, Transcoder};

#[test]
fn lossy_codecs_reject_lossless() {
    assert_eq!(AacTranscoder::new(AudioQuality::Lossless).err(), Some(TranscodeError::UnsupportedQuality));
    assert_eq!(OpusTranscoder::new(AudioQuality::Lossless).err(), Some(TranscodeError::UnsupportedQuality));
    for q in [AudioQuality::Low, AudioQuality::Medium, AudioQuality::High] {
        assert_eq!(FlacTranscoder::new(q).err(), Some(TranscodeError::UnsupportedQuality));
        assert_eq!(AacTranscoder::new(q).unwrap().quality(), q);
        assert_eq!(OpusTranscoder::new(q).unwrap().quality(), q);
    }
    assert!(FlacTranscoder::new(AudioQuality::Lossless).is_ok());
}

#[test]
fn aac_command_line() {
    let t = AacTranscoder::new(AudioQuality::Medium).unwrap();
    let c = t.command();
    assert_eq!(c.program, "ffmpeg");
    assert_eq!(c.args, vec!["-i", "pipe:0", "-map", "0:0", "-b:a", "192k", "-f", "adts", "-"]);
    assert_eq!(t.content_type(), "audio/aac");
    assert!(t.need_transcode());
}

#[test]
fn opus_command_line() {
    let t = OpusTranscoder::new(AudioQuality::Low).unwrap();
    let c = t.command();
    assert_eq!(c.program, "opusenc");
    assert_eq!(
        c.args,
        vec![
            "--bitrate", "128", "--hard-cbr", "--music", "--framesize", "20", "--comp", "0",
            "--discard-comments", "--discard-pictures", "-", "-"
        ]
    );
    assert_eq!(t.content_type(), "audio/opus");
    assert_eq!(OpusTranscoder::new(AudioQuality::High).unwrap().bitrate(), "256");
}

#[test]
fn passthrough_never_spawns() {
    let t = Transcoder::new(Codec::Flac, AudioQuality::Lossless).unwrap();
    assert!(!t.need_transcode());
    assert_eq!(t.content_type(), "audio/flac");
    assert_eq!(t.command().err(), Some(TranscodeError::UnsupportedOperation));
    assert_eq!(
        Transcoder::new(Codec::Aac, AudioQuality::Lossless).err(),
        Some(TranscodeError::UnsupportedQuality)
    );
    let a = Transcoder::new(Codec::Aac, AudioQuality::High).unwrap();
    assert_eq!(a.command().unwrap().args[5], "256k");
    assert_eq!(a.quality(), AudioQuality::High);
}
