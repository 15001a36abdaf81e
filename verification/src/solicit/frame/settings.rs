//! The SETTINGS frame and the settings of one side of a connection.

use crate::bytes_model::bytes_as_slice;
use crate::codec::write_buffer::WriteBuffer;
use crate::solicit::frame::flags::{bits_set, Flag, Flags};
use crate::solicit::frame::{
    spec_pack_header, spec_u32_from_be, spec_u32_to_be, spec_unpack_header, unpack_octets_4,
    FrameHeader, ParseFrameError, RawFrame,
};
use vstd::prelude::*;

verus! {

/// The type byte of the SETTINGS frame.
pub const SETTINGS_FRAME_TYPE: u8 = 0x4;

/// The most settings that a frame's payload can hold.
pub const MAX_SETTINGS_PER_FRAME: usize = 2796202;

/// One setting of the protocol with its value.
#[derive(Clone, Copy, Debug, PartialEq, Eq, Structural)]
pub enum HttpSetting {
    HeaderTableSize(u32),
    EnablePush(bool),
    MaxConcurrentStreams(u32),
    InitialWindowSize(u32),
    MaxFrameSize(u32),
    MaxHeaderListSize(u32),
}

impl HttpSetting {
    /// The identifier of the setting on the wire.
    pub open spec fn spec_id(self) -> u16 {
        match self {
            HttpSetting::HeaderTableSize(_) => 1,
            HttpSetting::EnablePush(_) => 2,
            HttpSetting::MaxConcurrentStreams(_) => 3,
            HttpSetting::InitialWindowSize(_) => 4,
            HttpSetting::MaxFrameSize(_) => 5,
            HttpSetting::MaxHeaderListSize(_) => 6,
        }
    }

    /// The value of the setting on the wire.
    pub open spec fn spec_val(self) -> u32 {
        match self {
            HttpSetting::HeaderTableSize(v) => v,
            HttpSetting::EnablePush(on) => if on {
                1
            } else {
                0
            },
            HttpSetting::MaxConcurrentStreams(v) => v,
            HttpSetting::InitialWindowSize(v) => v,
            HttpSetting::MaxFrameSize(v) => v,
            HttpSetting::MaxHeaderListSize(v) => v,
        }
    }

    /// The setting that an identifier and a value stand for. An identifier
    /// that the protocol does not define stands for none, nor does a value of
    /// "enable push" other than 0 and 1.
    pub open spec fn spec_from_id(id: u16, val: u32) -> Option<HttpSetting> {
        if id == 1 {
            Some(HttpSetting::HeaderTableSize(val))
        } else if id == 2 {
            if val == 0 {
                Some(HttpSetting::EnablePush(false))
            } else if val == 1 {
                Some(HttpSetting::EnablePush(true))
            } else {
                None
            }
        } else if id == 3 {
            Some(HttpSetting::MaxConcurrentStreams(val))
        } else if id == 4 {
            Some(HttpSetting::InitialWindowSize(val))
        } else if id == 5 {
            Some(HttpSetting::MaxFrameSize(val))
        } else if id == 6 {
            Some(HttpSetting::MaxHeaderListSize(val))
        } else {
            None
        }
    }

    /// The six bytes of the setting on the wire.
    pub open spec fn spec_serialize(self) -> Seq<u8> {
        seq![(self.spec_id() / 0x100) as u8, (self.spec_id() % 0x100) as u8] + spec_u32_to_be(
            self.spec_val(),
        )
    }

    /// The identifier of the setting on the wire.
    pub fn get_id(&self) -> (id: u16)
        ensures
            id == self.spec_id(),
    {
        match self {
            HttpSetting::HeaderTableSize(_) => 1,
            HttpSetting::EnablePush(_) => 2,
            HttpSetting::MaxConcurrentStreams(_) => 3,
            HttpSetting::InitialWindowSize(_) => 4,
            HttpSetting::MaxFrameSize(_) => 5,
            HttpSetting::MaxHeaderListSize(_) => 6,
        }
    }

    /// The value of the setting on the wire.
    pub fn get_val(&self) -> (val: u32)
        ensures
            val == self.spec_val(),
    {
        match self {
            HttpSetting::HeaderTableSize(v) => *v,
            HttpSetting::EnablePush(on) => if *on {
                1
            } else {
                0
            },
            HttpSetting::MaxConcurrentStreams(v) => *v,
            HttpSetting::InitialWindowSize(v) => *v,
            HttpSetting::MaxFrameSize(v) => *v,
            HttpSetting::MaxHeaderListSize(v) => *v,
        }
    }

    /// The setting that an identifier and a value stand for, if any.
    pub fn from_id(id: u16, val: u32) -> (r: Option<HttpSetting>)
        ensures
            r == HttpSetting::spec_from_id(id, val),
    {
        if id == 1 {
            Some(HttpSetting::HeaderTableSize(val))
        } else if id == 2 {
            if val == 0 {
                Some(HttpSetting::EnablePush(false))
            } else if val == 1 {
                Some(HttpSetting::EnablePush(true))
            } else {
                None
            }
        } else if id == 3 {
            Some(HttpSetting::MaxConcurrentStreams(val))
        } else if id == 4 {
            Some(HttpSetting::InitialWindowSize(val))
        } else if id == 5 {
            Some(HttpSetting::MaxFrameSize(val))
        } else if id == 6 {
            Some(HttpSetting::MaxHeaderListSize(val))
        } else {
            None
        }
    }
}

/// The flags that a SETTINGS frame can have.
#[derive(Clone, Copy, Debug, PartialEq, Eq, Structural)]
pub enum SettingsFlag {
    /// The frame acknowledges the peer's settings.
    Ack,
}

impl Flag for SettingsFlag {
    open spec fn mask(&self) -> u8 {
        0x1
    }

    fn bitmask(&self) -> (r: u8) {
        0x1
    }

    open spec fn all() -> Seq<SettingsFlag> {
        seq![SettingsFlag::Ack]
    }

    fn flags() -> (r: Vec<SettingsFlag>) {
        let mut r: Vec<SettingsFlag> = Vec::new();
        r.push(SettingsFlag::Ack);
        assert(r@ =~= SettingsFlag::all());
        r
    }
}

/// A SETTINGS frame.
#[derive(Debug)]
pub struct SettingsFrame {
    /// The settings that the frame carries, in order.
    pub settings: Vec<HttpSetting>,
    /// The flags byte.
    pub flags: Flags,
}

/// The settings that a payload spells, six bytes each; a group that stands
/// for no setting is passed over.
pub open spec fn spec_parse_settings(payload: Seq<u8>) -> Seq<HttpSetting>
    decreases payload.len(),
{
    if payload.len() < 6 {
        Seq::empty()
    } else {
        let id = (payload[0] * 0x100 + payload[1]) as u16;
        let val = spec_u32_from_be(payload[2], payload[3], payload[4], payload[5]) as u32;
        let rest = spec_parse_settings(payload.skip(6));
        match HttpSetting::spec_from_id(id, val) {
            Some(setting) => seq![setting] + rest,
            None => rest,
        }
    }
}

/// The payload that spells the given settings.
pub open spec fn spec_serialize_settings(settings: Seq<HttpSetting>) -> Seq<u8>
    decreases settings.len(),
{
    if settings.len() == 0 {
        Seq::empty()
    } else {
        spec_serialize_settings(settings.drop_last()) + settings.last().spec_serialize()
    }
}

/// The frame that the bytes of a raw frame spell, as its settings and its
/// flags byte, or why they spell none.
pub open spec fn spec_parse_settings_frame(raw: Seq<u8>) -> Result<
    (Seq<HttpSetting>, u8),
    ParseFrameError,
> {
    let header = spec_unpack_header(raw);
    if raw.len() < 9 {
        Err(ParseFrameError::InternalError)
    } else if header.frame_type != SETTINGS_FRAME_TYPE {
        Err(ParseFrameError::InternalError)
    } else if header.payload_len != raw.len() - 9 {
        Err(ParseFrameError::InternalError)
    } else if header.stream_id != 0 {
        Err(ParseFrameError::StreamIdMustBeZero)
    } else if bits_set(header.flags, 0x1) && header.payload_len != 0 {
        Err(ParseFrameError::IncorrectFrameLength(header.payload_len))
    } else if header.payload_len % 6 != 0 {
        Err(ParseFrameError::IncorrectFrameLength(header.payload_len))
    } else {
        Ok((spec_parse_settings(raw.skip(9)), header.flags))
    }
}

impl SettingsFrame {
    /// The header of the frame on the wire.
    pub open spec fn spec_header(&self) -> FrameHeader {
        FrameHeader {
            payload_len: (6 * self.settings@.len()) as u32,
            frame_type: SETTINGS_FRAME_TYPE,
            flags: self.flags.0,
            stream_id: 0,
        }
    }

    /// The bytes of the frame on the wire.
    pub open spec fn spec_serialize(&self) -> Seq<u8> {
        spec_pack_header(self.spec_header()) + spec_serialize_settings(self.settings@)
    }

    /// Whether the settings fit into one frame.
    pub open spec fn fits_wire(&self) -> bool {
        self.settings@.len() <= MAX_SETTINGS_PER_FRAME
    }

    /// A frame without settings and without flags.
    pub fn new() -> (r: SettingsFrame)
        ensures
            r.settings@ == Seq::<HttpSetting>::empty(),
            r.flags.0 == 0,
    {
        SettingsFrame { settings: Vec::new(), flags: Flags::default() }
    }

    /// A frame that acknowledges the peer's settings: no settings, and the
    /// `Ack` flag.
    pub fn new_ack() -> (r: SettingsFrame)
        ensures
            r.settings@ == Seq::<HttpSetting>::empty(),
            r.flags.0 == 0x1,
    {
        SettingsFrame { settings: Vec::new(), flags: Flags::new(0x1) }
    }

    /// A frame with the given settings and without flags.
    pub fn from_settings(settings: Vec<HttpSetting>) -> (r: SettingsFrame)
        ensures
            r.settings@ == settings@,
            r.flags.0 == 0,
    {
        SettingsFrame { settings, flags: Flags::default() }
    }

    /// Adds a setting at the end.
    pub fn add_setting(&mut self, setting: HttpSetting)
        ensures
            final(self).settings@ == old(self).settings@.push(setting),
            final(self).flags == old(self).flags,
    {
        self.settings.push(setting);
    }

    /// Whether the frame is an acknowledgement.
    pub fn is_ack(&self) -> (r: bool)
        ensures
            r == bits_set(self.flags.0, 0x1),
    {
        self.flags.is_set(SettingsFlag::Ack)
    }

    /// Reads a raw frame as a SETTINGS frame. The type must be right, the
    /// payload as long as the header says, the stream 0; the payload of an
    /// acknowledgement must be empty, and any payload a multiple of six bytes
    /// long.
    pub fn from_raw(raw_frame: &RawFrame) -> (r: Result<SettingsFrame, ParseFrameError>)
        ensures
            match r {
                Ok(frame) => spec_parse_settings_frame(raw_frame@) == Ok::<
                    (Seq<HttpSetting>, u8),
                    ParseFrameError,
                >((frame.settings@, frame.flags.0)),
                Err(e) => spec_parse_settings_frame(raw_frame@) == Err::<
                    (Seq<HttpSetting>, u8),
                    ParseFrameError,
                >(e),
            },
    {
        if raw_frame.len() < 9 {
            return Err(ParseFrameError::InternalError);
        }
        let header = raw_frame.header();
        if header.frame_type != SETTINGS_FRAME_TYPE {
            return Err(ParseFrameError::InternalError);
        }
        let payload = raw_frame.payload();
        if (header.payload_len as usize) != payload.len() {
            return Err(ParseFrameError::InternalError);
        }
        if header.stream_id != 0 {
            return Err(ParseFrameError::StreamIdMustBeZero);
        }
        let flags = Flags::new(header.flags);
        if flags.is_set(SettingsFlag::Ack) && header.payload_len != 0 {
            return Err(ParseFrameError::IncorrectFrameLength(header.payload_len));
        }
        if header.payload_len % 6 != 0 {
            return Err(ParseFrameError::IncorrectFrameLength(header.payload_len));
        }
        let bytes = bytes_as_slice(&payload);
        let ghost all = bytes@;
        let mut found: Vec<HttpSetting> = Vec::new();
        let mut pos: usize = 0;
        assert(all.skip(0) =~= all);
        while pos < bytes.len()
            invariant
                all == bytes@,
                bytes@.len() % 6 == 0,
                pos <= bytes@.len(),
                pos % 6 == 0,
                found@ + spec_parse_settings(all.skip(pos as int)) == spec_parse_settings(all),
            decreases bytes@.len() - pos,
        {
            let ghost rest = all.skip(pos as int);
            let id: u16 = (bytes[pos] as u16) * 0x100 + (bytes[pos + 1] as u16);
            let val: u32 = unpack_octets_4(bytes, pos + 2);
            assert(rest.skip(6) =~= all.skip(pos + 6));
            let ghost before = found@;
            match HttpSetting::from_id(id, val) {
                Some(setting) => {
                    found.push(setting);
                    assert(found@ + spec_parse_settings(all.skip(pos + 6)) =~= before
                        + spec_parse_settings(rest));
                },
                None => {},
            }
            pos = pos + 6;
        }
        assert(found@ =~= spec_parse_settings(all));
        Ok(SettingsFrame { settings: found, flags })
    }

    /// Appends the frame's bytes to `b`.
    pub fn serialize_into(self, b: &mut WriteBuffer)
        requires
            old(b).wf(),
            self.fits_wire(),
        ensures
            final(b).wf(),
            final(b)@ == old(b)@ + self.spec_serialize(),
    {
        let header = FrameHeader {
            payload_len: (6 * self.settings.len()) as u32,
            frame_type: SETTINGS_FRAME_TYPE,
            flags: self.flags.0,
            stream_id: 0,
        };
        b.write_header(header);
        let ghost start = b@;
        let mut i: usize = 0;
        while i < self.settings.len()
            invariant
                i <= self.settings@.len(),
                b.wf(),
                b@ == start + spec_serialize_settings(self.settings@.take(i as int)),
            decreases self.settings@.len() - i,
        {
            let setting = self.settings[i];
            let id: u16 = setting.get_id();
            let head: [u8; 2] = [(id / 0x100) as u8, (id % 0x100) as u8];
            b.extend_from_slice(head.as_slice());
            b.write_u32(setting.get_val());
            proof {
                let done = self.settings@.take(i + 1);
                assert(done.drop_last() =~= self.settings@.take(i as int));
                assert(done.last() == setting);
                assert(head@ =~= seq![(id / 0x100) as u8, (id % 0x100) as u8]);
                assert(b@ =~= start + spec_serialize_settings(done));
            }
            i = i + 1;
        }
        assert(self.settings@.take(self.settings@.len() as int) =~= self.settings@);
        assert(b@ =~= old(b)@ + self.spec_serialize());
    }

    /// The frame's bytes.
    pub fn serialize_into_vec(self) -> (v: Vec<u8>)
        requires
            self.fits_wire(),
        ensures
            v@ == self.spec_serialize(),
    {
        let mut builder = WriteBuffer::new();
        let ghost bytes = self.spec_serialize();
        self.serialize_into(&mut builder);
        assert(builder@ =~= bytes);
        builder.into_vec()
    }
}

/// The settings of one side of a connection.
#[derive(Clone, Copy, Debug, PartialEq, Eq, Structural)]
pub struct HttpSettings {
    /// The limit of the header compression table.
    pub header_table_size: u32,
    /// Whether the side accepts pushed streams.
    pub enable_push: bool,
    /// How many streams the side lets its peer have open.
    pub max_concurrent_streams: u32,
    /// The flow-control window that a new stream starts with.
    pub initial_window_size: u32,
    /// The largest frame payload that the side accepts.
    pub max_frame_size: u32,
    /// The largest header list that the side accepts.
    pub max_header_list_size: u32,
}

/// The settings that a connection starts with.
pub open spec fn spec_default_settings() -> HttpSettings {
    HttpSettings {
        header_table_size: 4096,
        enable_push: true,
        max_concurrent_streams: u32::MAX,
        initial_window_size: 65535,
        max_frame_size: 16384,
        max_header_list_size: u32::MAX,
    }
}

/// Settings after one setting was applied.
pub open spec fn spec_apply_setting(settings: HttpSettings, setting: HttpSetting) -> HttpSettings {
    match setting {
        HttpSetting::HeaderTableSize(v) => HttpSettings { header_table_size: v, ..settings },
        HttpSetting::EnablePush(v) => HttpSettings { enable_push: v, ..settings },
        HttpSetting::MaxConcurrentStreams(v) => HttpSettings {
            max_concurrent_streams: v,
            ..settings
        },
        HttpSetting::InitialWindowSize(v) => HttpSettings { initial_window_size: v, ..settings },
        HttpSetting::MaxFrameSize(v) => HttpSettings { max_frame_size: v, ..settings },
        HttpSetting::MaxHeaderListSize(v) => HttpSettings { max_header_list_size: v, ..settings },
    }
}

/// Settings after a list of settings was applied in order.
pub open spec fn spec_apply_settings(settings: HttpSettings, list: Seq<HttpSetting>) -> HttpSettings
    decreases list.len(),
{
    if list.len() == 0 {
        settings
    } else {
        spec_apply_setting(spec_apply_settings(settings, list.drop_last()), list.last())
    }
}

impl HttpSettings {
    /// The settings that a connection starts with.
    pub fn default_settings() -> (r: HttpSettings)
        ensures
            r == spec_default_settings(),
    {
        HttpSettings {
            header_table_size: 4096,
            enable_push: true,
            max_concurrent_streams: u32::MAX,
            initial_window_size: 65535,
            max_frame_size: 16384,
            max_header_list_size: u32::MAX,
        }
    }

    /// Applies one setting.
    pub fn apply(&mut self, setting: HttpSetting)
        ensures
            *final(self) == spec_apply_setting(*old(self), setting),
    {
        match setting {
            HttpSetting::HeaderTableSize(v) => {
                self.header_table_size = v;
            },
            HttpSetting::EnablePush(v) => {
                self.enable_push = v;
            },
            HttpSetting::MaxConcurrentStreams(v) => {
                self.max_concurrent_streams = v;
            },
            HttpSetting::InitialWindowSize(v) => {
                self.initial_window_size = v;
            },
            HttpSetting::MaxFrameSize(v) => {
                self.max_frame_size = v;
            },
            HttpSetting::MaxHeaderListSize(v) => {
                self.max_header_list_size = v;
            },
        }
    }

    /// Applies the settings of a frame in order.
    pub fn apply_from_frame(&mut self, frame: &SettingsFrame)
        ensures
            *final(self) == spec_apply_settings(*old(self), frame.settings@),
    {
        let mut i: usize = 0;
        while i < frame.settings.len()
            invariant
                i <= frame.settings@.len(),
                *self == spec_apply_settings(*old(self), frame.settings@.take(i as int)),
            decreases frame.settings@.len() - i,
        {
            self.apply(frame.settings[i]);
            proof {
                let done = frame.settings@.take(i + 1);
                assert(done.drop_last() =~= frame.settings@.take(i as int));
            }
            i = i + 1;
        }
        assert(frame.settings@.take(frame.settings@.len() as int) =~= frame.settings@);
    }
}

/// Whether a payload spells settings and nothing else: its length is a
/// multiple of six, and every group of six bytes stands for a setting.
pub open spec fn spec_settings_canonical(payload: Seq<u8>) -> bool
    decreases payload.len(),
{
    if payload.len() < 6 {
        payload.len() == 0
    } else {
        let id = (payload[0] * 0x100 + payload[1]) as u16;
        let val = spec_u32_from_be(payload[2], payload[3], payload[4], payload[5]) as u32;
        HttpSetting::spec_from_id(id, val) is Some && spec_settings_canonical(payload.skip(6))
    }
}

/// Putting a setting in front of others puts its bytes in front of theirs.
pub proof fn lemma_serialize_settings_front(first: HttpSetting, rest: Seq<HttpSetting>)
    ensures
        spec_serialize_settings(seq![first] + rest) == first.spec_serialize()
            + spec_serialize_settings(rest),
    decreases rest.len(),
{
    let all = seq![first] + rest;
    if rest.len() == 0 {
        assert(all.drop_last() =~= Seq::<HttpSetting>::empty());
        assert(spec_serialize_settings(all.drop_last()) =~= Seq::<u8>::empty());
        assert(spec_serialize_settings(rest) =~= Seq::<u8>::empty());
        assert(spec_serialize_settings(all) =~= first.spec_serialize() + spec_serialize_settings(
            rest,
        ));
    } else {
        assert(all.drop_last() =~= seq![first] + rest.drop_last());
        assert(all.last() == rest.last());
        lemma_serialize_settings_front(first, rest.drop_last());
        assert(spec_serialize_settings(all) =~= first.spec_serialize() + spec_serialize_settings(
            rest,
        ));
    }
}

/// A payload that spells settings and nothing else is written back from its
/// settings as it was, and holds six bytes for each.
pub proof fn lemma_settings_serialize_parsed(payload: Seq<u8>)
    requires
        spec_settings_canonical(payload),
    ensures
        spec_serialize_settings(spec_parse_settings(payload)) == payload,
        6 * spec_parse_settings(payload).len() == payload.len(),
    decreases payload.len(),
{
    if payload.len() < 6 {
        assert(spec_serialize_settings(Seq::<HttpSetting>::empty()) =~= payload);
    } else {
        let id = (payload[0] * 0x100 + payload[1]) as u16;
        let val = spec_u32_from_be(payload[2], payload[3], payload[4], payload[5]) as u32;
        let setting = HttpSetting::spec_from_id(id, val)->Some_0;
        let rest = payload.skip(6);
        lemma_settings_serialize_parsed(rest);
        lemma_serialize_settings_front(setting, spec_parse_settings(rest));
        crate::solicit::frame::lemma_split_be(payload[2], payload[3], payload[4], payload[5]);
        assert(setting.spec_id() == id);
        assert(setting.spec_val() == val);
        assert(setting.spec_serialize() =~= payload.take(6));
        assert(payload.take(6) + rest =~= payload);
    }
}

} // verus!
