//! Audio codecs and what a session description says of them.
use vstd::prelude::*;
use crate::text::{
    after, before, decimal, lower, opt_text, parse_number, parse_unsigned, same, split_first,
    text_is_parted_at_the_first, texts, trim, trimmed, written_number_is_read_back,
    written_number_lacks_others,
};

verus! {

/// The audio codecs that calls are made with.
#[derive(Clone, Copy, Debug, PartialEq, Eq, Structural)]
pub enum CodecType {
    PCMU,
    PCMA,
    G722,
    G729,
    Opus,
    TelephoneEvent,
}

impl CodecType {
    /// The customary payload type of the codec.
    pub open spec fn spec_payload_type(self) -> u8 {
        match self {
            CodecType::PCMU => 0,
            CodecType::PCMA => 8,
            CodecType::G722 => 9,
            CodecType::G729 => 18,
            CodecType::Opus => 111,
            CodecType::TelephoneEvent => 101,
        }
    }

    /// The RTP clock rate of the codec.
    pub open spec fn spec_clock_rate(self) -> u32 {
        match self {
            CodecType::Opus => 48000,
            _ => 8000,
        }
    }

    /// The number of channels of the codec.
    pub open spec fn spec_channels(self) -> u16 {
        match self {
            CodecType::Opus => 2,
            _ => 1,
        }
    }

    /// Whether the payload type of the codec is assigned by each session.
    pub open spec fn spec_is_dynamic(self) -> bool {
        self is Opus || self is TelephoneEvent
    }

    /// The customary payload type of the codec.
    pub fn payload_type(&self) -> (r: u8)
        ensures
            r == self.spec_payload_type(),
    {
        match self {
            CodecType::PCMU => 0,
            CodecType::PCMA => 8,
            CodecType::G722 => 9,
            CodecType::G729 => 18,
            CodecType::Opus => 111,
            CodecType::TelephoneEvent => 101,
        }
    }

    /// The RTP clock rate of the codec.
    pub fn clock_rate(&self) -> (r: u32)
        ensures
            r == self.spec_clock_rate(),
    {
        match self {
            CodecType::Opus => 48000,
            _ => 8000,
        }
    }

    /// The number of channels of the codec.
    pub fn channels(&self) -> (r: u16)
        ensures
            r == self.spec_channels(),
    {
        match self {
            CodecType::Opus => 2,
            _ => 1,
        }
    }

    /// Whether the payload type of the codec is assigned by each session.
    pub fn is_dynamic(&self) -> (r: bool)
        ensures
            r == self.spec_is_dynamic(),
    {
        matches!(self, CodecType::Opus | CodecType::TelephoneEvent)
    }

    /// The codec that a payload type means where no mapping is given.
    pub open spec fn with_payload_type(pt: u8) -> Option<CodecType> {
        if pt == 0 {
            Some(CodecType::PCMU)
        } else if pt == 8 {
            Some(CodecType::PCMA)
        } else if pt == 9 {
            Some(CodecType::G722)
        } else if pt == 18 {
            Some(CodecType::G729)
        } else if pt == 101 {
            Some(CodecType::TelephoneEvent)
        } else if pt == 111 {
            Some(CodecType::Opus)
        } else {
            None
        }
    }

    /// The codec that a payload type means where no mapping is given.
    pub fn from_payload_type(pt: u8) -> (r: Option<CodecType>)
        ensures
            r == CodecType::with_payload_type(pt),
    {
        match pt {
            0 => Some(CodecType::PCMU),
            8 => Some(CodecType::PCMA),
            9 => Some(CodecType::G722),
            18 => Some(CodecType::G729),
            101 => Some(CodecType::TelephoneEvent),
            111 => Some(CodecType::Opus),
            _ => None,
        }
    }
}

/// The codec of an encoding name, whatever the case of its letters.
pub open spec fn codec_named(name: Seq<char>) -> Option<CodecType> {
    let n = lower(name);
    if n == "pcmu"@ || n == "ulaw"@ {
        Some(CodecType::PCMU)
    } else if n == "pcma"@ || n == "alaw"@ {
        Some(CodecType::PCMA)
    } else if n == "g722"@ {
        Some(CodecType::G722)
    } else if n == "g729"@ {
        Some(CodecType::G729)
    } else if n == "opus"@ {
        Some(CodecType::Opus)
    } else if n == "telephone-event"@ {
        Some(CodecType::TelephoneEvent)
    } else {
        None
    }
}

/// `audio_codec::CodecType::try_from(&str)`: the codec whose encoding name, or
/// whose second name `ulaw` or `alaw`, is `name` up to the case of ASCII
/// letters; an error for every other name.
#[verifier::external_body]
pub(crate) fn codec_from_name(name: &str) -> (r: Option<CodecType>)
    ensures
        r == codec_named(name@),
{
    match audio_codec::CodecType::try_from(name) {
        Ok(audio_codec::CodecType::PCMU) => Some(CodecType::PCMU),
        Ok(audio_codec::CodecType::PCMA) => Some(CodecType::PCMA),
        Ok(audio_codec::CodecType::G722) => Some(CodecType::G722),
        Ok(audio_codec::CodecType::G729) => Some(CodecType::G729),
        Ok(audio_codec::CodecType::Opus) => Some(CodecType::Opus),
        Ok(audio_codec::CodecType::TelephoneEvent) => Some(CodecType::TelephoneEvent),
        Err(_) => None,
    }
}

/// A codec as a session uses it.
#[derive(Clone, Copy, Debug, PartialEq, Eq, Structural)]
pub struct CodecInfo {
    pub payload_type: u8,
    pub codec: CodecType,
    pub clock_rate: u32,
    pub channels: u16,
}

/// The parameters that media is sent with.
#[derive(Clone, Copy, Debug, PartialEq, Eq, Structural)]
pub struct RtpCodecParameters {
    pub payload_type: u8,
    pub clock_rate: u32,
    pub channels: u8,
}

impl CodecInfo {
    /// The parameters to send media of this codec with.
    pub open spec fn params(self) -> RtpCodecParameters {
        RtpCodecParameters {
            payload_type: self.payload_type,
            clock_rate: self.clock_rate,
            channels: self.channels as u8,
        }
    }

    /// The parameters to send media of this codec with.
    pub fn to_params(&self) -> (r: RtpCodecParameters)
        ensures
            r == self.params(),
    {
        RtpCodecParameters {
            payload_type: self.payload_type,
            clock_rate: self.clock_rate,
            channels: #[verifier::truncate]
            (self.channels as u8),
        }
    }
}

/// The codecs of a session description, those that carry audio apart from
/// those that carry DTMF events, each in the order of the description.
#[derive(Debug)]
pub struct ExtractedCodecs {
    pub audio: Vec<CodecInfo>,
    pub dtmf: Vec<CodecInfo>,
}

/// An attribute line of a media section.
#[derive(Clone, Debug)]
pub struct SdpAttribute {
    pub key: String,
    pub value: Option<String>,
}

/// A media section of a session description.
#[derive(Clone, Debug)]
pub struct SdpMedia {
    pub is_audio: bool,
    pub formats: Vec<String>,
    pub attributes: Vec<SdpAttribute>,
}

/// The contents of an attribute line.
pub type AttributeText = (Seq<char>, Option<Seq<char>>);

/// The contents of a media section.
pub type MediaText = (bool, Seq<Seq<char>>, Seq<AttributeText>);

impl SdpMedia {
    /// The contents of the section.
    pub open spec fn text(self) -> MediaText {
        (
            self.is_audio,
            texts(self.formats@),
            Seq::new(
                self.attributes@.len(),
                |i: int| (self.attributes@[i].key@, opt_text(self.attributes@[i].value)),
            ),
        )
    }
}

/// The media sections that `rustrtc::SessionDescription::parse` reads from a
/// session description; `None` for one that it rejects.
pub uninterp spec fn parsed_media(sdp: Seq<char>) -> Option<
    Seq<(bool, Seq<Seq<char>>, Seq<(Seq<char>, Option<Seq<char>>)>)>,
>;

/// `rustrtc::SessionDescription::parse`: the media sections of the description
/// in order, each with whether it is an audio section, its formats and its
/// attributes other than the direction, `mid` and `connection`.
#[verifier::external_body]
pub(crate) fn parse_media(sdp: &str) -> (r: Option<Vec<SdpMedia>>)
    ensures
        parsed_media(sdp@) == (match r {
            Some(v) => Some(Seq::new(v@.len(), |i: int| v@[i].text())),
            None => None,
        }),
{
    let parsed = rustrtc::SessionDescription::parse(rustrtc::SdpType::Offer, sdp).ok()?;
    let sections = parsed.media_sections.into_iter();
    Some(sections.map(|m| SdpMedia {
        is_audio: matches!(m.kind, rustrtc::MediaKind::Audio),
        formats: m.formats,
        attributes: m.attributes.into_iter().map(|a| SdpAttribute {
            key: a.key,
            value: a.value,
        }).collect(),
    }).collect())
}

/// A payload type with the codec, clock rate and channels that it stands for.
pub type RtpMapEntry = (u8, (CodecType, u32, u16));

/// The encoding that an attribute maps payload type `pt` to.
pub open spec fn mapped_encoding(attr: AttributeText, pt: u8) -> Option<Seq<char>> {
    match attr.1 {
        Some(v) => if attr.0 == "rtpmap"@ && parse_number(before(v, ' '), 255) == Some(pt as nat) {
            match after(v, ' ') {
                Some(e) => Some(trimmed(e)),
                None => None,
            }
        } else {
            None
        },
        None => None,
    }
}

/// The encoding that the first mapping of `pt` among the attributes gives.
pub open spec fn encoding_of(attrs: Seq<AttributeText>, pt: u8) -> Option<Seq<char>>
    decreases attrs.len(),
{
    if attrs.len() == 0 {
        None
    } else if mapped_encoding(attrs[0], pt) is Some {
        mapped_encoding(attrs[0], pt)
    } else {
        encoding_of(attrs.drop_first(), pt)
    }
}

/// The number that a text writes, or `default`.
pub open spec fn number_or(s: Option<Seq<char>>, max: nat, default: nat) -> nat {
    match s {
        Some(t) => match parse_number(t, max) {
            Some(n) => n,
            None => default,
        },
        None => default,
    }
}

/// The entry of an encoding `name/clock/channels`: the clock of the codec and
/// one channel stand in for what is not written. `None` for an unknown name.
pub open spec fn encoded_entry(pt: u8, encoding: Seq<char>) -> Option<RtpMapEntry> {
    match codec_named(before(encoding, '/')) {
        Some(codec) => {
            let rest = after(encoding, '/');
            let clock = match rest {
                Some(t) => Some(before(t, '/')),
                None => None,
            };
            let channels = match rest {
                Some(t) => after(t, '/'),
                None => None,
            };
            Some(
                (
                    pt,
                    (
                        codec,
                        number_or(clock, u32::MAX as nat, codec.spec_clock_rate() as nat) as u32,
                        number_or(channels, u16::MAX as nat, 1) as u16,
                    ),
                ),
            )
        },
        None => None,
    }
}

/// The entry of a format of a media section: what the attributes map it to,
/// else the codec that its number means by custom.
pub open spec fn format_entry(attrs: Seq<AttributeText>, format: Seq<char>) -> Option<RtpMapEntry> {
    match parse_number(format, 255) {
        Some(n) => match encoding_of(attrs, n as u8) {
            Some(e) => encoded_entry(n as u8, e),
            None => match CodecType::with_payload_type(n as u8) {
                Some(c) => Some((n as u8, (c, c.spec_clock_rate(), c.spec_channels()))),
                None => None,
            },
        },
        None => None,
    }
}

/// The entries of the formats of a media section that name a known codec.
pub open spec fn rtp_map(attrs: Seq<AttributeText>, formats: Seq<Seq<char>>) -> Seq<RtpMapEntry>
    decreases formats.len(),
{
    if formats.len() == 0 {
        Seq::empty()
    } else {
        let rest = rtp_map(attrs, formats.drop_last());
        match format_entry(attrs, formats.last()) {
            Some(e) => rest.push(e),
            None => rest,
        }
    }
}

/// The codec that an entry stands for.
pub open spec fn info_of(e: RtpMapEntry) -> CodecInfo {
    CodecInfo { payload_type: e.0, codec: e.1.0, clock_rate: e.1.1, channels: e.1.2 }
}

/// The codecs of the entries.
pub open spec fn infos(m: Seq<RtpMapEntry>) -> Seq<CodecInfo> {
    m.map_values(|e: RtpMapEntry| info_of(e))
}

/// The codecs that carry audio.
pub open spec fn audio_of(c: Seq<CodecInfo>) -> Seq<CodecInfo> {
    c.filter(|i: CodecInfo| i.codec !is TelephoneEvent)
}

/// The codecs that carry DTMF events.
pub open spec fn dtmf_of(c: Seq<CodecInfo>) -> Seq<CodecInfo> {
    c.filter(|i: CodecInfo| i.codec is TelephoneEvent)
}

/// The first audio section.
pub open spec fn first_audio(media: Seq<MediaText>) -> Option<MediaText>
    decreases media.len(),
{
    if media.len() == 0 {
        None
    } else if media[0].0 {
        Some(media[0])
    } else {
        first_audio(media.drop_first())
    }
}

/// The codecs of the first audio section of a session description; none where
/// the description is malformed or has no audio section.
pub open spec fn sdp_codecs(sdp: Seq<char>) -> Seq<CodecInfo> {
    match parsed_media(sdp) {
        Some(m) => media_codecs(m),
        None => Seq::empty(),
    }
}

/// The codecs of the first audio section.
pub open spec fn media_codecs(media: Seq<MediaText>) -> Seq<CodecInfo> {
    match first_audio(media) {
        Some(a) => infos(rtp_map(a.2, a.1)),
        None => Seq::empty(),
    }
}

fn number_text_or(s: &Option<String>, max: u64, default: u64) -> (r: u64)
    requires
        default <= max,
    ensures
        r == number_or(opt_text(*s), max as nat, default as nat),
        r <= max,
{
    match s {
        Some(t) => match parse_unsigned(t.as_str(), max) {
            Some(n) => n,
            None => default,
        },
        None => default,
    }
}

fn entry_of_encoding(pt: u8, encoding: &str) -> (r: Option<RtpMapEntry>)
    ensures
        r == encoded_entry(pt, encoding@),
{
    let parts = split_first(encoding, '/');
    match codec_from_name(parts.0.as_str()) {
        Some(codec) => {
            let (clock, channels) = match &parts.1 {
                Some(rest) => {
                    let p = split_first(rest.as_str(), '/');
                    (Some(p.0), p.1)
                },
                None => (None, None),
            };
            let clock_rate = number_text_or(&clock, u32::MAX as u64, codec.clock_rate() as u64);
            let channel_count = number_text_or(&channels, u16::MAX as u64, 1);
            Some((pt, (codec, clock_rate as u32, channel_count as u16)))
        },
        None => None,
    }
}

fn encoding_for(section: &SdpMedia, pt: u8) -> (r: Option<String>)
    ensures
        opt_text(r) == encoding_of(section.text().2, pt),
{
    let ghost attrs = section.text().2;
    let mut i: usize = 0;
    assert(attrs.skip(0) =~= attrs);
    while i < section.attributes.len()
        invariant
            i <= section.attributes.len(),
            attrs == section.text().2,
            encoding_of(attrs.skip(i as int), pt) == encoding_of(attrs, pt),
        decreases section.attributes.len() - i,
    {
        let a = &section.attributes[i];
        let ghost here = attrs.skip(i as int);
        assert(here[0] == (a.key@, opt_text(a.value)));
        assert(here.drop_first() =~= attrs.skip(i + 1));
        if let Some(v) = &a.value {
            if same(a.key.as_str(), "rtpmap") {
                let parts = split_first(v.as_str(), ' ');
                if let Some(n) = parse_unsigned(parts.0.as_str(), 255) {
                    if n == pt as u64 {
                        if let Some(e) = &parts.1 {
                            return Some(trim(e.as_str()));
                        }
                    }
                }
            }
        }
        i += 1;
    }
    assert(attrs.skip(i as int) =~= Seq::empty());
    None
}

/// What reads codecs from session descriptions and chooses among them.
pub struct MediaNegotiator;

impl MediaNegotiator {
    /// The payload types of a media section with what they stand for.
    pub fn parse_rtp_map_from_section(section: &SdpMedia) -> (r: Vec<RtpMapEntry>)
        ensures
            r@ == rtp_map(section.text().2, section.text().1),
    {
        let ghost formats = section.text().1;
        let mut out: Vec<RtpMapEntry> = Vec::new();
        let mut i: usize = 0;
        assert(formats.take(0) =~= Seq::empty());
        while i < section.formats.len()
            invariant
                i <= section.formats.len(),
                formats == section.text().1,
                out@ == rtp_map(section.text().2, formats.take(i as int)),
            decreases section.formats.len() - i,
        {
            let f = section.formats[i].as_str();
            assert(formats.take(i + 1).drop_last() =~= formats.take(i as int));
            assert(formats.take(i + 1).last() == f@);
            if let Some(n) = parse_unsigned(f, 255) {
                let pt = n as u8;
                match encoding_for(section, pt) {
                    Some(e) => {
                        if let Some(entry) = entry_of_encoding(pt, e.as_str()) {
                            out.push(entry);
                        }
                    },
                    None => {
                        if let Some(c) = CodecType::from_payload_type(pt) {
                            out.push((pt, (c, c.clock_rate(), c.channels())));
                        }
                    },
                }
            }
            i += 1;
        }
        assert(formats.take(i as int) =~= formats);
        out
    }

    /// The first audio section.
    pub fn audio_section(media: &Vec<SdpMedia>) -> (r: Option<&SdpMedia>)
        ensures
            first_audio(Seq::new(media@.len(), |i: int| media@[i].text())) == (match r {
                Some(m) => Some(m.text()),
                None => None,
            }),
    {
        let ghost all = Seq::new(media@.len(), |i: int| media@[i].text());
        let mut i: usize = 0;
        assert(all.skip(0) =~= all);
        while i < media.len()
            invariant
                i <= media.len(),
                all == Seq::new(media@.len(), |i: int| media@[i].text()),
                first_audio(all.skip(i as int)) == first_audio(all),
            decreases media.len() - i,
        {
            assert(all.skip(i as int)[0] == media@[i as int].text());
            assert(all.skip(i as int).drop_first() =~= all.skip(i + 1));
            if media[i].is_audio {
                return Some(&media[i]);
            }
            i += 1;
        }
        assert(all.skip(i as int) =~= Seq::empty());
        None
    }

    /// The codecs of the first audio section.
    pub fn codecs_of_media(media: &Vec<SdpMedia>) -> (r: Vec<CodecInfo>)
        ensures
            r@ == media_codecs(Seq::new(media@.len(), |i: int| media@[i].text())),
    {
        match Self::audio_section(media) {
            Some(section) => {
                let map = Self::parse_rtp_map_from_section(section);
                Self::infos_of(&map)
            },
            None => Vec::new(),
        }
    }

    /// The codecs of the entries of a map.
    pub fn infos_of(map: &Vec<RtpMapEntry>) -> (r: Vec<CodecInfo>)
        ensures
            r@ == infos(map@),
    {
        let mut out: Vec<CodecInfo> = Vec::new();
        let mut i: usize = 0;
        while i < map.len()
            invariant
                i <= map.len(),
                out@ == infos(map@).take(i as int),
            decreases map.len() - i,
        {
            let e = map[i];
            out.push(
                CodecInfo { payload_type: e.0, codec: e.1.0, clock_rate: e.1.1, channels: e.1.2 },
            );
            i += 1;
            assert(infos(map@).take(i as int) =~= infos(map@).take(i - 1).push(info_of(map@[i - 1])));
        }
        assert(infos(map@).take(i as int) =~= infos(map@));
        out
    }

    /// All codecs of the first audio section of a session description.
    pub fn extract_all_codecs(sdp: &str) -> (r: Vec<CodecInfo>)
        ensures
            r@ == sdp_codecs(sdp@),
    {
        match parse_media(sdp) {
            Some(media) => Self::codecs_of_media(&media),
            None => Vec::new(),
        }
    }

    /// The codecs of a list, those that carry audio apart from the others.
    pub fn split_codecs(codecs: &Vec<CodecInfo>) -> (r: ExtractedCodecs)
        ensures
            r.audio@ == audio_of(codecs@),
            r.dtmf@ == dtmf_of(codecs@),
    {
        let mut audio: Vec<CodecInfo> = Vec::new();
        let mut dtmf: Vec<CodecInfo> = Vec::new();
        let mut i: usize = 0;
        proof {
            reveal(Seq::filter);
            assert(codecs@.take(0) =~= Seq::empty());
        }
        while i < codecs.len()
            invariant
                i <= codecs.len(),
                audio@ == audio_of(codecs@.take(i as int)),
                dtmf@ == dtmf_of(codecs@.take(i as int)),
            decreases codecs.len() - i,
        {
            let c = codecs[i];
            proof {
                reveal(Seq::filter);
                assert(codecs@.take(i + 1).drop_last() =~= codecs@.take(i as int));
                assert(codecs@.take(i + 1).last() == c);
            }
            if matches!(c.codec, CodecType::TelephoneEvent) {
                dtmf.push(c);
            } else {
                audio.push(c);
            }
            i += 1;
        }
        assert(codecs@.take(i as int) =~= codecs@);
        ExtractedCodecs { audio, dtmf }
    }

    /// The codecs of the first audio section of a session description, those
    /// that carry audio apart from those that carry DTMF events.
    pub fn extract_codec_params(sdp: &str) -> (r: ExtractedCodecs)
        ensures
            r.audio@ == audio_of(sdp_codecs(sdp@)),
            r.dtmf@ == dtmf_of(sdp_codecs(sdp@)),
    {
        let all = Self::extract_all_codecs(sdp);
        Self::split_codecs(&all)
    }

    /// The codecs of a session description that carry DTMF events.
    pub fn extract_dtmf_codecs(sdp: &str) -> (r: Vec<CodecInfo>)
        ensures
            r@ == dtmf_of(sdp_codecs(sdp@)),
    {
        Self::extract_codec_params(sdp).dtmf
    }
}

/// The first codec of type `t` in a list.
pub open spec fn first_of_type(codecs: Seq<CodecInfo>, t: CodecType) -> Option<CodecInfo>
    decreases codecs.len(),
{
    if codecs.len() == 0 {
        None
    } else if codecs[0].codec == t {
        Some(codecs[0])
    } else {
        first_of_type(codecs.drop_first(), t)
    }
}

/// Whether a list holds a codec of type `t`.
pub open spec fn has_type(codecs: Seq<CodecInfo>, t: CodecType) -> bool {
    exists|i: int| 0 <= i < codecs.len() && #[trigger] codecs[i].codec == t
}

/// `first_of_type` finds a codec exactly where there is one.
pub proof fn first_of_type_facts(codecs: Seq<CodecInfo>, t: CodecType)
    ensures
        first_of_type(codecs, t) is Some <==> has_type(codecs, t),
        first_of_type(codecs, t) matches Some(c) ==> c.codec == t && codecs.contains(c),
    decreases codecs.len(),
{
    if codecs.len() > 0 {
        let rest = codecs.drop_first();
        first_of_type_facts(rest, t);
        if codecs[0].codec == t {
            assert(codecs.contains(codecs[0]));
        } else {
            if has_type(codecs, t) {
                let i = choose|i: int| 0 <= i < codecs.len() && #[trigger] codecs[i].codec == t;
                assert(rest[i - 1].codec == t);
            }
            if has_type(rest, t) {
                let i = choose|i: int| 0 <= i < rest.len() && #[trigger] rest[i].codec == t;
                assert(codecs[i + 1].codec == t);
            }
            if let Some(c) = first_of_type(rest, t) {
                let i = choose|i: int| 0 <= i < rest.len() && rest[i] == c;
                assert(codecs[i + 1] == c);
            }
        }
    }
}

/// The first codec of type `t` in a list.
pub fn find_type(codecs: &Vec<CodecInfo>, t: CodecType) -> (r: Option<CodecInfo>)
    ensures
        r == first_of_type(codecs@, t),
{
    let mut i: usize = 0;
    assert(codecs@.skip(0) =~= codecs@);
    while i < codecs.len()
        invariant
            i <= codecs.len(),
            first_of_type(codecs@.skip(i as int), t) == first_of_type(codecs@, t),
        decreases codecs.len() - i,
    {
        assert(codecs@.skip(i as int)[0] == codecs@[i as int]);
        assert(codecs@.skip(i as int).drop_first() =~= codecs@.skip(i + 1));
        if codecs[i].codec == t {
            return Some(codecs[i]);
        }
        i += 1;
    }
    assert(codecs@.skip(i as int) =~= Seq::empty());
    None
}

/// Whether a list holds a codec of type `t`.
pub fn contains_type(codecs: &Vec<CodecInfo>, t: CodecType) -> (r: bool)
    ensures
        r == has_type(codecs@, t),
{
    proof {
        first_of_type_facts(codecs@, t);
    }
    find_type(codecs, t).is_some()
}

/// The first codec that the dialplan allows, in the dialplan's order.
pub open spec fn best_allowed(codecs: Seq<CodecInfo>, allow: Seq<CodecType>) -> Option<CodecInfo>
    decreases allow.len(),
{
    if allow.len() == 0 {
        None
    } else if allow[0] !is TelephoneEvent && first_of_type(codecs, allow[0]) is Some {
        first_of_type(codecs, allow[0])
    } else {
        best_allowed(codecs, allow.drop_first())
    }
}

/// The first codec of a list that carries audio.
pub open spec fn first_audio_codec(codecs: Seq<CodecInfo>) -> Option<CodecInfo> {
    if audio_of(codecs).len() > 0 {
        Some(audio_of(codecs)[0])
    } else {
        None
    }
}

/// The codec that a call uses: the first allowed one in the order of the
/// dialplan, or the first that carries audio where the dialplan allows all.
pub open spec fn best_codec(codecs: Seq<CodecInfo>, allow: Seq<CodecType>) -> Option<CodecInfo> {
    if allow.len() == 0 {
        first_audio_codec(codecs)
    } else {
        best_allowed(codecs, allow)
    }
}

proof fn audio_of_facts(codecs: Seq<CodecInfo>, k: int)
    requires
        0 <= k < codecs.len(),
        forall|j: int| 0 <= j < k ==> (#[trigger] codecs[j]).codec is TelephoneEvent,
        codecs[k].codec !is TelephoneEvent,
    ensures
        first_audio_codec(codecs) == Some(codecs[k]),
    decreases codecs.len(),
{
    reveal(Seq::filter);
    let rest = codecs.drop_last();
    if k < rest.len() {
        assert forall|j: int| 0 <= j < k implies (#[trigger] rest[j]).codec is TelephoneEvent by {
            assert(codecs[j].codec is TelephoneEvent);
        }
        audio_of_facts(rest, k);
    } else {
        no_audio_facts(rest);
    }
}

proof fn no_audio_facts(codecs: Seq<CodecInfo>)
    requires
        forall|j: int| 0 <= j < codecs.len() ==> (#[trigger] codecs[j]).codec is TelephoneEvent,
    ensures
        audio_of(codecs) == Seq::<CodecInfo>::empty(),
        first_audio_codec(codecs) is None,
    decreases codecs.len(),
{
    reveal(Seq::filter);
    if codecs.len() > 0 {
        assert(codecs[codecs.len() - 1].codec is TelephoneEvent);
        assert forall|j: int| 0 <= j < codecs.drop_last().len() implies (
        #[trigger] codecs.drop_last()[j]).codec is TelephoneEvent by {
            assert(codecs[j].codec is TelephoneEvent);
        }
        no_audio_facts(codecs.drop_last());
    }
}

/// What `best_codec` chooses carries audio, is in the list and is allowed.
pub proof fn best_codec_is_usable(codecs: Seq<CodecInfo>, allow: Seq<CodecType>)
    ensures
        best_codec(codecs, allow) matches Some(c) ==> codecs.contains(c) && c.codec !is TelephoneEvent
            && (allow.len() > 0 ==> allow.contains(c.codec)),
{
    if allow.len() == 0 {
        if exists|k: int| 0 <= k < codecs.len() && (#[trigger] codecs[k]).codec !is TelephoneEvent {
            let k = first_audio_index(codecs);
            audio_of_facts(codecs, k);
        } else {
            assert forall|j: int| 0 <= j < codecs.len() implies (
            #[trigger] codecs[j]).codec is TelephoneEvent by {
                assert(!(codecs[j].codec !is TelephoneEvent));
            }
            no_audio_facts(codecs);
        }
    } else {
        best_allowed_is_usable(codecs, allow);
    }
}

proof fn first_audio_index(codecs: Seq<CodecInfo>) -> (k: int)
    requires
        exists|k: int| 0 <= k < codecs.len() && (#[trigger] codecs[k]).codec !is TelephoneEvent,
    ensures
        0 <= k < codecs.len(),
        codecs[k].codec !is TelephoneEvent,
        forall|j: int| 0 <= j < k ==> (#[trigger] codecs[j]).codec is TelephoneEvent,
    decreases codecs.len(),
{
    if codecs[0].codec !is TelephoneEvent {
        0
    } else {
        let rest = codecs.drop_first();
        let w = choose|k: int| 0 <= k < codecs.len() && (#[trigger] codecs[k]).codec !is TelephoneEvent;
        assert(rest[w - 1].codec !is TelephoneEvent);
        let k = first_audio_index(rest);
        assert(codecs[k + 1] == rest[k]);
        assert forall|j: int| 0 <= j < k + 1 implies (#[trigger] codecs[j]).codec is TelephoneEvent by {
            if j > 0 {
                assert(rest[j - 1].codec is TelephoneEvent);
            }
        }
        k + 1
    }
}

proof fn best_allowed_is_usable(codecs: Seq<CodecInfo>, allow: Seq<CodecType>)
    ensures
        best_allowed(codecs, allow) matches Some(c) ==> codecs.contains(c) && c.codec
            !is TelephoneEvent && allow.contains(c.codec),
    decreases allow.len(),
{
    if allow.len() > 0 {
        first_of_type_facts(codecs, allow[0]);
        best_allowed_is_usable(codecs, allow.drop_first());
        if let Some(c) = best_allowed(codecs, allow.drop_first()) {
            let i = choose|i: int|
                0 <= i < allow.drop_first().len() && allow.drop_first()[i] == c.codec;
            assert(allow[i + 1] == c.codec);
        }
        assert(allow.contains(allow[0]));
    }
}

/// The SSRC that an attribute announces.
pub open spec fn announced_ssrc(attr: AttributeText) -> Option<nat> {
    match attr.1 {
        Some(v) => if attr.0 == "ssrc"@ {
            parse_number(before(v, ' '), u32::MAX as nat)
        } else {
            None
        },
        None => None,
    }
}

/// The first SSRC that the attributes announce.
pub open spec fn first_ssrc(attrs: Seq<AttributeText>) -> Option<nat>
    decreases attrs.len(),
{
    if attrs.len() == 0 {
        None
    } else if announced_ssrc(attrs[0]) is Some {
        announced_ssrc(attrs[0])
    } else {
        first_ssrc(attrs.drop_first())
    }
}

/// The SSRC that the first audio section of a session description announces.
pub open spec fn sdp_ssrc(sdp: Seq<char>) -> Option<nat> {
    match parsed_media(sdp) {
        Some(m) => match first_audio(m) {
            Some(a) => first_ssrc(a.2),
            None => None,
        },
        None => None,
    }
}

impl MediaNegotiator {
    /// The codec that a call uses, see [`best_codec`].
    pub fn select_best_codec(codecs: &Vec<CodecInfo>, allow: &[CodecType]) -> (r: Option<CodecInfo>)
        ensures
            r == best_codec(codecs@, allow@),
    {
        let mut i: usize = 0;
        if allow.len() == 0 {
            while i < codecs.len()
                invariant
                    i <= codecs.len(),
                    allow@.len() == 0,
                    forall|j: int| 0 <= j < i ==> (#[trigger] codecs@[j]).codec is TelephoneEvent,
                decreases codecs.len() - i,
            {
                if !matches!(codecs[i].codec, CodecType::TelephoneEvent) {
                    proof {
                        audio_of_facts(codecs@, i as int);
                    }
                    return Some(codecs[i]);
                }
                i += 1;
            }
            proof {
                no_audio_facts(codecs@);
            }
            return None;
        }
        assert(allow@.skip(0) =~= allow@);
        while i < allow.len()
            invariant
                i <= allow.len(),
                allow@.len() > 0,
                best_allowed(codecs@, allow@.skip(i as int)) == best_allowed(codecs@, allow@),
            decreases allow.len() - i,
        {
            let t = allow[i];
            assert(allow@.skip(i as int)[0] == t);
            assert(allow@.skip(i as int).drop_first() =~= allow@.skip(i + 1));
            if !matches!(t, CodecType::TelephoneEvent) {
                let found = find_type(codecs, t);
                if found.is_some() {
                    return found;
                }
            }
            i += 1;
        }
        assert(allow@.skip(i as int) =~= Seq::empty());
        None
    }

    /// The SSRC that a media section announces.
    pub fn ssrc_of_section(section: &SdpMedia) -> (r: Option<u32>)
        ensures
            first_ssrc(section.text().2) == (match r {
                Some(n) => Some(n as nat),
                None => None,
            }),
    {
        let ghost attrs = section.text().2;
        let mut i: usize = 0;
        assert(attrs.skip(0) =~= attrs);
        while i < section.attributes.len()
            invariant
                i <= section.attributes.len(),
                attrs == section.text().2,
                first_ssrc(attrs.skip(i as int)) == first_ssrc(attrs),
            decreases section.attributes.len() - i,
        {
            let a = &section.attributes[i];
            assert(attrs.skip(i as int)[0] == (a.key@, opt_text(a.value)));
            assert(attrs.skip(i as int).drop_first() =~= attrs.skip(i + 1));
            if let Some(v) = &a.value {
                if same(a.key.as_str(), "ssrc") {
                    let parts = split_first(v.as_str(), ' ');
                    if let Some(n) = parse_unsigned(parts.0.as_str(), u32::MAX as u64) {
                        return Some(n as u32);
                    }
                }
            }
            i += 1;
        }
        assert(attrs.skip(i as int) =~= Seq::empty());
        None
    }

    /// The SSRC that the first audio section of a session description announces.
    pub fn extract_ssrc(sdp: &str) -> (r: Option<u32>)
        ensures
            sdp_ssrc(sdp@) == (match r {
                Some(n) => Some(n as nat),
                None => None,
            }),
    {
        match parse_media(sdp) {
            Some(media) => match Self::audio_section(&media) {
                Some(section) => Self::ssrc_of_section(section),
                None => None,
            },
            None => None,
        }
    }
}

/// A copy of a list of codecs.
pub fn copy_codecs(v: &Vec<CodecInfo>) -> (r: Vec<CodecInfo>)
    ensures
        r@ == v@,
{
    let mut out: Vec<CodecInfo> = Vec::new();
    let mut i: usize = 0;
    while i < v.len()
        invariant
            i <= v.len(),
            out@ == v@.take(i as int),
        decreases v.len() - i,
    {
        out.push(v[i]);
        i += 1;
        assert(v@.take(i as int) =~= v@.take(i - 1).push(v@[i - 1]));
    }
    assert(v@.take(i as int) =~= v@);
    out
}

proof fn no_best_allowed(codecs: Seq<CodecInfo>, allow: Seq<CodecType>, k: int)
    requires
        0 <= k < allow.len(),
        allow[k] != CodecType::TelephoneEvent,
        exists|i: int| 0 <= i < codecs.len() && (#[trigger] codecs[i]).codec == allow[k],
        forall|j: int|
            0 <= j < k && #[trigger] allow[j] != CodecType::TelephoneEvent ==> !has_type(
                codecs,
                allow[j],
            ),
    ensures
        best_allowed(codecs, allow) is Some,
        best_allowed(codecs, allow)->0.codec == allow[k],
    decreases k,
{
    first_of_type_facts(codecs, allow[0]);
    let i = choose|i: int| 0 <= i < codecs.len() && (#[trigger] codecs[i]).codec == allow[k];
    assert(codecs[i].codec == allow[k]);
    assert(has_type(codecs, allow[k]));
    if k > 0 {
        let rest = allow.drop_first();
        assert forall|j: int|
            0 <= j < k - 1 && #[trigger] rest[j] != CodecType::TelephoneEvent implies !has_type(
            codecs,
            rest[j],
        ) by {
            assert(allow[j + 1] == rest[j]);
        }
        assert(rest[k - 1] == allow[k]);
        no_best_allowed(codecs, rest, k - 1);
    }
}

proof fn best_allowed_exists(codecs: Seq<CodecInfo>, allow: Seq<CodecType>)
    ensures
        best_allowed(codecs, allow) is Some ==> exists|i: int|
            0 <= i < codecs.len() && (#[trigger] codecs[i]).codec != CodecType::TelephoneEvent
                && allow.contains(codecs[i].codec),
        best_allowed(codecs, allow) is None ==> forall|i: int|
            0 <= i < codecs.len() && (#[trigger] codecs[i]).codec != CodecType::TelephoneEvent
                ==> !allow.contains(codecs[i].codec),
    decreases allow.len(),
{
    best_allowed_is_usable(codecs, allow);
    if let Some(c) = best_allowed(codecs, allow) {
        let i = choose|i: int| 0 <= i < codecs.len() && codecs[i] == c;
        assert(codecs[i].codec != CodecType::TelephoneEvent);
    } else if allow.len() > 0 {
        let rest = allow.drop_first();
        best_allowed_exists(codecs, rest);
        first_of_type_facts(codecs, allow[0]);
        assert forall|i: int|
            0 <= i < codecs.len() && (#[trigger] codecs[i]).codec
                != CodecType::TelephoneEvent implies !allow.contains(codecs[i].codec) by {
            if allow.contains(codecs[i].codec) {
                let k = choose|k: int| 0 <= k < allow.len() && allow[k] == codecs[i].codec;
                if k > 0 {
                    assert(rest[k - 1] == codecs[i].codec);
                    assert(rest.contains(codecs[i].codec));
                } else {
                    assert(has_type(codecs, allow[0]));
                }
            }
        }
    }
}

/// A call uses the first codec of the dialplan's list that the other side has; where
/// the dialplan allows all, the first audio codec of the other side. One is found
/// exactly where the other side has an audio codec that is allowed.
pub proof fn first_allowed_codec_is_used(codecs: Seq<CodecInfo>, allow: Seq<CodecType>, k: int)
    ensures
        best_codec(codecs, allow) is Some <==> exists|i: int|
            0 <= i < codecs.len() && (#[trigger] codecs[i]).codec != CodecType::TelephoneEvent && (
            allow.len() == 0 || allow.contains(codecs[i].codec)),
        best_codec(codecs, allow) matches Some(c) ==> codecs.contains(c) && c.codec
            != CodecType::TelephoneEvent && (allow.len() > 0 ==> allow.contains(c.codec)),
        0 <= k < allow.len() && allow[k] != CodecType::TelephoneEvent && (exists|i: int|
            0 <= i < codecs.len() && (#[trigger] codecs[i]).codec == allow[k]) && (forall|j: int|
            0 <= j < k && #[trigger] allow[j] != CodecType::TelephoneEvent ==> forall|i: int|
                0 <= i < codecs.len() ==> (#[trigger] codecs[i]).codec != allow[j]) ==> {
            &&& best_codec(codecs, allow) matches Some(c)
            &&& c.codec == allow[k]
        },
        allow.len() == 0 && 0 <= k < codecs.len() && codecs[k].codec != CodecType::TelephoneEvent && (
        forall|j: int| 0 <= j < k ==> (#[trigger] codecs[j]).codec == CodecType::TelephoneEvent)
            ==> best_codec(codecs, allow) == Some(codecs[k]),
{
    best_codec_is_usable(codecs, allow);
    if allow.len() == 0 {
        if exists|k: int| 0 <= k < codecs.len() && (#[trigger] codecs[k]).codec !is TelephoneEvent {
            let m = first_audio_index(codecs);
            audio_of_facts(codecs, m);
            assert(codecs[m].codec != CodecType::TelephoneEvent);
        } else {
            assert forall|j: int| 0 <= j < codecs.len() implies (
            #[trigger] codecs[j]).codec is TelephoneEvent by {
                assert(!(codecs[j].codec !is TelephoneEvent));
            }
            no_audio_facts(codecs);
        }
        if 0 <= k < codecs.len() && codecs[k].codec != CodecType::TelephoneEvent && (forall|j: int|
            0 <= j < k ==> (#[trigger] codecs[j]).codec == CodecType::TelephoneEvent) {
            audio_of_facts(codecs, k);
        }
    } else {
        best_allowed_exists(codecs, allow);
        if 0 <= k < allow.len() && allow[k] != CodecType::TelephoneEvent && (exists|i: int|
            0 <= i < codecs.len() && (#[trigger] codecs[i]).codec == allow[k]) && (forall|j: int|
            0 <= j < k && #[trigger] allow[j] != CodecType::TelephoneEvent ==> forall|i: int|
                0 <= i < codecs.len() ==> (#[trigger] codecs[i]).codec != allow[j]) {
            no_best_allowed(codecs, allow, k);
        }
    }
}

/// Every codec has the RTP clock and payload type that are assigned to it: Opus runs at
/// 48 kHz in two channels, all others at 8 kHz in one; only Opus and DTMF events have no
/// payload type of their own.
pub proof fn codecs_have_their_assigned_parameters(t: CodecType)
    ensures
        t is Opus <==> t.spec_clock_rate() == 48000,
        t !is Opus <==> t.spec_clock_rate() == 8000,
        t is Opus <==> t.spec_channels() == 2,
        t !is Opus <==> t.spec_channels() == 1,
        t.spec_is_dynamic() <==> t is Opus || t is TelephoneEvent,
        t is PCMU <==> t.spec_payload_type() == 0,
        t is PCMA <==> t.spec_payload_type() == 8,
        t is G722 <==> t.spec_payload_type() == 9,
        t is G729 <==> t.spec_payload_type() == 18,
        t.spec_is_dynamic() <==> 96 <= t.spec_payload_type() <= 127,
        CodecType::with_payload_type(t.spec_payload_type()) == Some(t),
{
}

/// Media is sent with the payload type and the clock of its codec.
pub proof fn parameters_are_those_of_the_codec(c: CodecInfo)
    ensures
        c.params().payload_type == c.payload_type,
        c.params().clock_rate == c.clock_rate,
        c.channels <= 255 ==> c.params().channels == c.channels,
{
}

/// A codec is known by its names in any case, and each name stands for its own codec.
pub proof fn codecs_are_known_by_their_names(name: Seq<char>)
    ensures
        codec_named(lower(name)) == codec_named(name),
        codec_named(name) == Some(CodecType::PCMU) <==> lower(name) == "pcmu"@ || lower(name) == "ulaw"@,
        codec_named(name) == Some(CodecType::PCMA) <==> lower(name) == "pcma"@ || lower(name) == "alaw"@,
        codec_named(name) == Some(CodecType::G722) <==> lower(name) == "g722"@,
        codec_named(name) == Some(CodecType::G729) <==> lower(name) == "g729"@,
        codec_named(name) == Some(CodecType::Opus) <==> lower(name) == "opus"@,
        codec_named(name) == Some(CodecType::TelephoneEvent) <==> lower(name) == "telephone-event"@,
{
    reveal_strlit("pcmu");
    reveal_strlit("ulaw");
    reveal_strlit("pcma");
    reveal_strlit("alaw");
    reveal_strlit("g722");
    reveal_strlit("g729");
    reveal_strlit("opus");
    reveal_strlit("telephone-event");
    assert("pcmu"@[0] == 'p' && "pcma"@[0] == 'p' && "pcmu"@[3] == 'u' && "pcma"@[3] == 'a');
    assert("ulaw"@[0] == 'u' && "alaw"@[0] == 'a' && "opus"@[0] == 'o');
    assert("g722"@[0] == 'g' && "g729"@[0] == 'g' && "g722"@[3] == '2' && "g729"@[3] == '9');
    assert("telephone-event"@.len() == 15);
    assert forall|i: int| 0 <= i < name.len() implies lower(lower(name))[i] == lower(name)[i] by {}
    assert(lower(lower(name)) =~= lower(name));
}

/// What an `rtpmap` line says of a codec is what is read: its clock and its channels,
/// where they are written, else the clock of the codec and one channel.
pub proof fn written_encoding_is_read_back(pt: u8, name: Seq<char>, clock: u32, channels: u16, codec: CodecType)
    requires
        codec_named(name) == Some(codec),
        !name.contains('/'),
    ensures
        encoded_entry(
            pt,
            name + seq!['/'] + (decimal(clock as nat) + seq!['/'] + decimal(channels as nat)),
        ) == Some((pt, (codec, clock, channels))),
        encoded_entry(pt, name + seq!['/'] + decimal(clock as nat)) == Some((pt, (codec, clock, 1u16))),
        encoded_entry(pt, name) == Some((pt, (codec, codec.spec_clock_rate(), 1u16))),
{
    let d = decimal(clock as nat);
    let e = decimal(channels as nat);
    written_number_lacks_others(clock as nat, '/');
    written_number_is_read_back(clock as nat, u32::MAX as nat);
    written_number_is_read_back(channels as nat, u16::MAX as nat);
    text_is_parted_at_the_first(name, '/', d + seq!['/'] + e);
    text_is_parted_at_the_first(name, '/', d);
    text_is_parted_at_the_first(d, '/', e);
}

/// A line `rtpmap` maps the payload type that it begins with to what follows, and no
/// other; lines of other names map none.
pub proof fn mapping_is_for_its_payload_type(n: u8, encoding: Seq<char>, pt: u8, name: Seq<char>)
    ensures
        mapped_encoding(("rtpmap"@, Some(decimal(n as nat) + seq![' '] + encoding)), pt) == (if n == pt {
            Some(trimmed(encoding))
        } else {
            None
        }),
        name != "rtpmap"@ ==> mapped_encoding((name, Some(encoding)), pt) is None,
{
    let d = decimal(n as nat);
    written_number_lacks_others(n as nat, ' ');
    written_number_is_read_back(n as nat, 255);
    text_is_parted_at_the_first(d, ' ', encoding);
}

/// The first line that maps a payload type counts. A format goes by what it is mapped
/// to, and else by the codec that its number means by custom.
pub proof fn first_mapping_counts(attrs: Seq<AttributeText>, n: u8, k: int)
    requires
        0 <= k <= attrs.len(),
        forall|j: int| 0 <= j < k ==> mapped_encoding(#[trigger] attrs[j], n) is None,
        k < attrs.len() ==> mapped_encoding(attrs[k], n) is Some,
    ensures
        k < attrs.len() ==> encoding_of(attrs, n) == mapped_encoding(attrs[k], n),
        k == attrs.len() ==> encoding_of(attrs, n) is None,
        k < attrs.len() ==> format_entry(attrs, decimal(n as nat)) == encoded_entry(
            n,
            mapped_encoding(attrs[k], n)->0,
        ),
        k == attrs.len() ==> (format_entry(attrs, decimal(n as nat)) matches Some(e) ==> e.0 == n && (
        CodecType::with_payload_type(n) matches Some(c) && (e.1).0 == c && (e.1).1 == c.spec_clock_rate()
            && (e.1).2 == c.spec_channels())),
        k == attrs.len() && CodecType::with_payload_type(n) is None ==> format_entry(
            attrs,
            decimal(n as nat),
        ) is None,
    decreases k,
{
    written_number_is_read_back(n as nat, 255);
    if k > 0 {
        let rest = attrs.drop_first();
        assert(mapped_encoding(attrs[0], n) is None);
        assert forall|j: int| 0 <= j < k - 1 implies mapped_encoding(#[trigger] rest[j], n) is None by {
            assert(rest[j] == attrs[j + 1]);
        }
        if k < attrs.len() {
            assert(rest[k - 1] == attrs[k]);
        }
        first_mapping_counts(rest, n, k - 1);
    }
}

/// The numbers that stand for a codec by custom.
pub proof fn customary_numbers_name_codecs(pt: u8)
    ensures
        CodecType::with_payload_type(pt) == Some(CodecType::PCMU) <==> pt == 0,
        CodecType::with_payload_type(pt) == Some(CodecType::PCMA) <==> pt == 8,
        CodecType::with_payload_type(pt) == Some(CodecType::G722) <==> pt == 9,
        CodecType::with_payload_type(pt) == Some(CodecType::G729) <==> pt == 18,
        CodecType::with_payload_type(pt) == Some(CodecType::TelephoneEvent) <==> pt == 101,
        CodecType::with_payload_type(pt) == Some(CodecType::Opus) <==> pt == 111,
        CodecType::with_payload_type(pt) matches Some(c) ==> c.spec_payload_type() == pt,
{
}

/// The codecs of a section stand in the order of its formats; a format that names no
/// known codec gives none.
pub proof fn codecs_stand_in_the_order_of_the_formats(
    attrs: Seq<AttributeText>,
    a: Seq<Seq<char>>,
    b: Seq<Seq<char>>,
    format: Seq<char>,
)
    ensures
        rtp_map(attrs, a + b) == rtp_map(attrs, a) + rtp_map(attrs, b),
        format_entry(attrs, format) matches Some(e) ==> rtp_map(attrs, seq![format]) == seq![e],
        format_entry(attrs, format) is None ==> rtp_map(attrs, seq![format]).len() == 0,
    decreases b.len(),
{
    assert(seq![format].drop_last() =~= Seq::<Seq<char>>::empty());
    assert(rtp_map(attrs, Seq::<Seq<char>>::empty()) =~= Seq::empty());
    if format_entry(attrs, format) is Some {
        assert(rtp_map(attrs, seq![format]) =~= seq![format_entry(attrs, format)->0]);
    }
    if b.len() > 0 {
        codecs_stand_in_the_order_of_the_formats(attrs, a, b.drop_last(), format);
        assert((a + b).drop_last() =~= a + b.drop_last());
        assert((a + b).last() == b.last());
        assert(rtp_map(attrs, a + b) =~= rtp_map(attrs, a) + rtp_map(attrs, b));
    } else {
        assert(a + b =~= a);
        assert(b =~= Seq::<Seq<char>>::empty());
        assert(rtp_map(attrs, a + b) =~= rtp_map(attrs, a) + rtp_map(attrs, b));
    }
}

/// The codecs and the SSRC of a description are those of its first audio section.
pub proof fn first_audio_section_counts(media: Seq<MediaText>, k: int)
    requires
        0 <= k <= media.len(),
        forall|j: int| 0 <= j < k ==> !(#[trigger] media[j]).0,
        k < media.len() ==> media[k].0,
    ensures
        k < media.len() ==> first_audio(media) == Some(media[k]),
        k < media.len() ==> media_codecs(media).len() == rtp_map(media[k].2, media[k].1).len(),
        k < media.len() ==> forall|i: int|
            0 <= i < media_codecs(media).len() ==> {
                let e = rtp_map(media[k].2, media[k].1)[i];
                let c = #[trigger] media_codecs(media)[i];
                c.payload_type == e.0 && c.codec == (e.1).0 && c.clock_rate == (e.1).1 && c.channels
                    == (e.1).2
            },
        k == media.len() ==> media_codecs(media).len() == 0,
    decreases k,
{
    if k > 0 {
        let rest = media.drop_first();
        assert(!media[0].0);
        assert forall|j: int| 0 <= j < k - 1 implies !(#[trigger] rest[j]).0 by {
            assert(rest[j] == media[j + 1]);
        }
        if k < media.len() {
            assert(rest[k - 1] == media[k]);
        }
        first_audio_section_counts(rest, k - 1);
    }
}

/// The first line that announces an SSRC is the one that counts.
pub proof fn first_ssrc_counts(attrs: Seq<AttributeText>, n: u32, rest: Seq<char>, k: int)
    requires
        0 <= k < attrs.len(),
        attrs[k] == ("ssrc"@, Some(decimal(n as nat) + seq![' '] + rest)),
        forall|j: int| 0 <= j < k ==> (#[trigger] attrs[j]).0 != "ssrc"@,
    ensures
        first_ssrc(attrs) == Some(n as nat),
    decreases k,
{
    written_number_lacks_others(n as nat, ' ');
    written_number_is_read_back(n as nat, u32::MAX as nat);
    text_is_parted_at_the_first(decimal(n as nat), ' ', rest);
    if k > 0 {
        let more = attrs.drop_first();
        assert(attrs[0].0 != "ssrc"@);
        assert forall|j: int| 0 <= j < k - 1 implies (#[trigger] more[j]).0 != "ssrc"@ by {
            assert(more[j] == attrs[j + 1]);
        }
        assert(more[k - 1] == attrs[k]);
        first_ssrc_counts(more, n, rest, k - 1);
    }
}

} // verus!
