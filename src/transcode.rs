use vstd::prelude::*;

verus! {

/// Audio fidelity tiers, from lowest to highest.
#[derive(Clone, Copy, Debug, PartialEq, Eq, Structural)]
pub enum AudioQuality {
    Low,
    Medium,
    High,
    Lossless,
}

impl AudioQuality {
    /// Every tier but the source's own lossless form needs an encoder.
    pub open spec fn spec_need_transcode(self) -> bool {
        self != AudioQuality::Lossless
    }

    pub fn need_transcode(&self) -> (r: bool)
        ensures
            r == self.spec_need_transcode(),
    {
        match self {
            AudioQuality::Lossless => false,
            _ => true,
        }
    }
}

/// Why a transcoder could not be built or used.
#[derive(Clone, Copy, Debug, PartialEq, Eq, Structural)]
pub enum TranscodeError {
    /// The variant cannot serve the requested tier.
    UnsupportedQuality,
    /// The variant passes the source through and never starts an encoder.
    UnsupportedOperation,
}

/// A program and its arguments, ready to be started with piped stdin and stdout.
pub struct EncoderCommand {
    pub program: String,
    pub args: Vec<String>,
}

impl EncoderCommand {
    pub open spec fn args_view(&self) -> Seq<Seq<char>> {
        self.args@.map_values(|a: String| a@)
    }
}

fn owned(s: &str) -> (r: String)
    ensures
        r@ == s@,
{
    s.to_owned()
}

/// Builds an owned argument list from string slices, in order.
fn owned_args(parts: &[&str]) -> (r: Vec<String>)
    ensures
        r@.len() == parts@.len(),
        forall|i: int| 0 <= i < parts@.len() ==> #[trigger] r@[i]@ == parts@[i]@,
{
    let mut r: Vec<String> = Vec::new();
    let mut i: usize = 0;
    while i < parts.len()
        invariant
            i <= parts@.len(),
            r@.len() == i,
            forall|j: int| 0 <= j < i ==> #[trigger] r@[j]@ == parts@[j]@,
        decreases parts@.len() - i,
    {
        r.push(owned(parts[i]));
        i = i + 1;
    }
    r
}

pub open spec fn aac_bitrate(q: AudioQuality) -> Seq<char> {
    match q {
        AudioQuality::Low => "128k"@,
        AudioQuality::Medium => "192k"@,
        _ => "256k"@,
    }
}

pub open spec fn aac_args(q: AudioQuality) -> Seq<Seq<char>> {
    seq!["-i"@, "pipe:0"@, "-map"@, "0:0"@, "-b:a"@, aac_bitrate(q), "-f"@, "adts"@, "-"@]
}

pub open spec fn opus_bitrate(q: AudioQuality) -> Seq<char> {
    match q {
        AudioQuality::Low => "128"@,
        AudioQuality::Medium => "192"@,
        _ => "256"@,
    }
}

pub open spec fn opus_args(q: AudioQuality) -> Seq<Seq<char>> {
    seq![
        "--bitrate"@, opus_bitrate(q), "--hard-cbr"@, "--music"@, "--framesize"@, "20"@,
        "--comp"@, "0"@, "--discard-comments"@, "--discard-pictures"@, "-"@, "-"@
    ]
}

/// AAC in an ADTS stream, encoded by ffmpeg.
pub struct AacTranscoder {
    quality: AudioQuality,
}

impl AacTranscoder {
    pub closed spec fn spec_quality(&self) -> AudioQuality {
        self.quality
    }

    #[verifier::type_invariant]
    spec fn lossy(&self) -> bool {
        self.quality != AudioQuality::Lossless
    }

    pub fn new(quality: AudioQuality) -> (r: Result<AacTranscoder, TranscodeError>)
        ensures
            quality == AudioQuality::Lossless <==> r is Err,
            r is Err ==> r->Err_0 == TranscodeError::UnsupportedQuality,
            r is Ok ==> r->Ok_0.spec_quality() == quality,
    {
        match quality {
            AudioQuality::Lossless => Err(TranscodeError::UnsupportedQuality),
            _ => Ok(AacTranscoder { quality }),
        }
    }

    pub fn content_type(&self) -> (r: &'static str)
        ensures
            r@ == "audio/aac"@,
    {
        "audio/aac"
    }

    pub fn quality(&self) -> (r: AudioQuality)
        ensures
            r == self.spec_quality(),
            r != AudioQuality::Lossless,
    {
        proof {
            use_type_invariant(self);
        }
        self.quality
    }

    pub fn need_transcode(&self) -> (r: bool)
        ensures
            r == self.spec_quality().spec_need_transcode(),
            r,
    {
        self.quality().need_transcode()
    }

    pub fn bitrate(&self) -> (r: &'static str)
        ensures
            r@ == aac_bitrate(self.spec_quality()),
    {
        match self.quality {
            AudioQuality::Low => "128k",
            AudioQuality::Medium => "192k",
            _ => "256k",
        }
    }

    /// The ffmpeg invocation that reads the source on stdin and writes ADTS to stdout.
    pub fn command(&self) -> (r: EncoderCommand)
        ensures
            r.program@ == "ffmpeg"@,
            r.args_view() == aac_args(self.spec_quality()),
    {
        let parts = ["-i", "pipe:0", "-map", "0:0", "-b:a", self.bitrate(), "-f", "adts", "-"];
        let args = owned_args(&parts);
        let r = EncoderCommand { program: owned("ffmpeg"), args };
        assert(r.args_view() =~= aac_args(self.spec_quality()));
        r
    }
}

/// Opus at a constant bitrate, encoded by opusenc.
pub struct OpusTranscoder {
    quality: AudioQuality,
}

impl OpusTranscoder {
    pub closed spec fn spec_quality(&self) -> AudioQuality {
        self.quality
    }

    #[verifier::type_invariant]
    spec fn lossy(&self) -> bool {
        self.quality != AudioQuality::Lossless
    }

    pub fn new(quality: AudioQuality) -> (r: Result<OpusTranscoder, TranscodeError>)
        ensures
            quality == AudioQuality::Lossless <==> r is Err,
            r is Err ==> r->Err_0 == TranscodeError::UnsupportedQuality,
            r is Ok ==> r->Ok_0.spec_quality() == quality,
    {
        match quality {
            AudioQuality::Lossless => Err(TranscodeError::UnsupportedQuality),
            _ => Ok(OpusTranscoder { quality }),
        }
    }

    pub fn content_type(&self) -> (r: &'static str)
        ensures
            r@ == "audio/opus"@,
    {
        "audio/opus"
    }

    pub fn quality(&self) -> (r: AudioQuality)
        ensures
            r == self.spec_quality(),
            r != AudioQuality::Lossless,
    {
        proof {
            use_type_invariant(self);
        }
        self.quality
    }

    pub fn need_transcode(&self) -> (r: bool)
        ensures
            r == self.spec_quality().spec_need_transcode(),
            r,
    {
        self.quality().need_transcode()
    }

    /// Target bitrate in kbit/s.
    pub fn bitrate(&self) -> (r: &'static str)
        ensures
            r@ == opus_bitrate(self.spec_quality()),
    {
        match self.quality {
            AudioQuality::Low => "128",
            AudioQuality::Medium => "192",
            _ => "256",
        }
    }

    /// The opusenc invocation: hard CBR, 20 ms frames, music tuning, and no
    /// comments or pictures carried over; stdin to stdout.
    pub fn command(&self) -> (r: EncoderCommand)
        ensures
            r.program@ == "opusenc"@,
            r.args_view() == opus_args(self.spec_quality()),
    {
        let parts = [
            "--bitrate",
            self.bitrate(),
            "--hard-cbr",
            "--music",
            "--framesize",
            "20",
            "--comp",
            "0",
            "--discard-comments",
            "--discard-pictures",
            "-",
            "-",
        ];
        let args = owned_args(&parts);
        let r = EncoderCommand { program: owned("opusenc"), args };
        assert(r.args_view() =~= opus_args(self.spec_quality()));
        r
    }
}

/// Lossless passthrough: the source is served as it is stored.
pub struct FlacTranscoder;

impl FlacTranscoder {
    pub fn new(quality: AudioQuality) -> (r: Result<FlacTranscoder, TranscodeError>)
        ensures
            quality != AudioQuality::Lossless <==> r is Err,
            r is Err ==> r->Err_0 == TranscodeError::UnsupportedQuality,
    {
        match quality {
            AudioQuality::Lossless => Ok(FlacTranscoder),
            _ => Err(TranscodeError::UnsupportedQuality),
        }
    }

    pub fn content_type(&self) -> (r: &'static str)
        ensures
            r@ == "audio/flac"@,
    {
        "audio/flac"
    }

    pub fn quality(&self) -> (r: AudioQuality)
        ensures
            r == AudioQuality::Lossless,
    {
        AudioQuality::Lossless
    }

    pub fn need_transcode(&self) -> (r: bool)
        ensures
            !r,
    {
        self.quality().need_transcode()
    }

    /// A passthrough never starts an encoder.
    pub fn command(&self) -> (r: Result<EncoderCommand, TranscodeError>)
        ensures
            r is Err && r->Err_0 == TranscodeError::UnsupportedOperation,
    {
        Err(TranscodeError::UnsupportedOperation)
    }
}

/// The codecs a track can be served in.
#[derive(Clone, Copy, Debug, PartialEq, Eq, Structural)]
pub enum Codec {
    Aac,
    Opus,
    Flac,
}

/// Whether `codec` may serve `quality`: the lossy codecs serve every tier but
/// lossless, and the passthrough serves lossless alone.
pub open spec fn serves(codec: Codec, quality: AudioQuality) -> bool {
    match codec {
        Codec::Flac => quality == AudioQuality::Lossless,
        _ => quality != AudioQuality::Lossless,
    }
}

/// A transcoder of one of the known variants, checked against its tier when built.
pub enum Transcoder {
    Aac(AacTranscoder),
    Opus(OpusTranscoder),
    Flac(FlacTranscoder),
}

impl Transcoder {
    pub open spec fn spec_codec(&self) -> Codec {
        match self {
            Transcoder::Aac(_) => Codec::Aac,
            Transcoder::Opus(_) => Codec::Opus,
            Transcoder::Flac(_) => Codec::Flac,
        }
    }

    pub open spec fn spec_quality(&self) -> AudioQuality {
        match self {
            Transcoder::Aac(t) => t.spec_quality(),
            Transcoder::Opus(t) => t.spec_quality(),
            Transcoder::Flac(_) => AudioQuality::Lossless,
        }
    }

    pub fn new(codec: Codec, quality: AudioQuality) -> (r: Result<Transcoder, TranscodeError>)
        ensures
            serves(codec, quality) <==> r is Ok,
            r is Ok ==> r->Ok_0.spec_codec() == codec && r->Ok_0.spec_quality() == quality,
            r is Err ==> r->Err_0 == TranscodeError::UnsupportedQuality,
    {
        match codec {
            Codec::Aac => match AacTranscoder::new(quality) {
                Ok(t) => Ok(Transcoder::Aac(t)),
                Err(e) => Err(e),
            },
            Codec::Opus => match OpusTranscoder::new(quality) {
                Ok(t) => Ok(Transcoder::Opus(t)),
                Err(e) => Err(e),
            },
            Codec::Flac => match FlacTranscoder::new(quality) {
                Ok(t) => Ok(Transcoder::Flac(t)),
                Err(e) => Err(e),
            },
        }
    }

    pub fn content_type(&self) -> (r: &'static str)
        ensures
            r@ == match self.spec_codec() {
                Codec::Aac => "audio/aac"@,
                Codec::Opus => "audio/opus"@,
                Codec::Flac => "audio/flac"@,
            },
    {
        match self {
            Transcoder::Aac(t) => t.content_type(),
            Transcoder::Opus(t) => t.content_type(),
            Transcoder::Flac(t) => t.content_type(),
        }
    }

    pub fn quality(&self) -> (r: AudioQuality)
        ensures
            r == self.spec_quality(),
            serves(self.spec_codec(), r),
    {
        match self {
            Transcoder::Aac(t) => t.quality(),
            Transcoder::Opus(t) => t.quality(),
            Transcoder::Flac(t) => t.quality(),
        }
    }

    pub fn need_transcode(&self) -> (r: bool)
        ensures
            r == self.spec_quality().spec_need_transcode(),
            r <==> self.spec_codec() != Codec::Flac,
    {
        self.quality().need_transcode()
    }

    /// The encoder to start for this transcoder; the passthrough has none.
    pub fn command(&self) -> (r: Result<EncoderCommand, TranscodeError>)
        ensures
            match self {
                Transcoder::Aac(t) => r is Ok && r->Ok_0.program@ == "ffmpeg"@
                    && r->Ok_0.args_view() == aac_args(t.spec_quality()),
                Transcoder::Opus(t) => r is Ok && r->Ok_0.program@ == "opusenc"@
                    && r->Ok_0.args_view() == opus_args(t.spec_quality()),
                Transcoder::Flac(_) => r == Err::<EncoderCommand, _>(
                    TranscodeError::UnsupportedOperation,
                ),
            },
    {
        match self {
            Transcoder::Aac(t) => Ok(t.command()),
            Transcoder::Opus(t) => Ok(t.command()),
            Transcoder::Flac(t) => t.command(),
        }
    }
}

} // verus!
