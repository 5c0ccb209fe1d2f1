//! The persisted device configuration: a fixed-layout binary record of
//! nul-padded 64-byte string slots bracketed by a repeated magic constant,
//! with encode/decode and a partial-update merge that never clears a field.

use vstd::prelude::*;
use vstd::string::StringSliceAdditionalSpecFns;
use vstd::utf8::valid_utf8;

use crate::ascii::utf8_from_bytes;

verus! {

/// One 64-byte nul-padded string slot of the record.
#[derive(Clone, Copy, PartialEq, Debug)]
pub struct ConfigV1Value(pub [u8; 64]);

impl View for ConfigV1Value {
    type V = Seq<u8>;

    open spec fn view(&self) -> Seq<u8> {
        self.0@
    }
}

/// The index of the first nul byte of `s`, or `s.len()` when there is none.
pub open spec fn first_nul(s: Seq<u8>) -> int
    decreases s.len(),
{
    if s.len() == 0 {
        0
    } else if s[0] == 0 {
        0
    } else {
        1 + first_nul(s.drop_first())
    }
}

pub proof fn lemma_first_nul(s: Seq<u8>)
    ensures
        0 <= first_nul(s) <= s.len(),
        forall|i: int| 0 <= i < first_nul(s) ==> s[i] != 0,
        first_nul(s) < s.len() ==> s[first_nul(s)] == 0,
    decreases s.len(),
{
    if s.len() > 0 && s[0] != 0 {
        let d = s.drop_first();
        lemma_first_nul(d);
        assert forall|i: int| 0 <= i < first_nul(s) implies s[i] != 0 by {
            if i >= 1 {
                assert(d[i - 1] != 0);
                assert(s[i] == d[i - 1]);
            }
        }
        if first_nul(s) < s.len() {
            assert(s[first_nul(s)] == d[first_nul(d)]);
        }
    }
}

/// The text a slot holds: its bytes up to the first nul.
pub open spec fn slot_text(s: Seq<u8>) -> Seq<u8> {
    s.take(first_nul(s))
}

impl ConfigV1Value {
    /// Builds a slot from a string of at most 64 bytes, nul-padded.
    pub fn from_str(value: &str) -> (r: Result<ConfigV1Value, &'static str>)
        ensures
            r matches Ok(v) ==> value.spec_bytes().len() <= 64
                && v@ == value.spec_bytes() + Seq::new((64 - value.spec_bytes().len()) as nat, |i: int| 0u8),
            r is Err ==> value.spec_bytes().len() > 64,
    {
        let data = value.as_bytes();
        if data.len() > 64 {
            return Err("input string too long (>64 bytes)");
        }
        let mut arr = [0u8; 64];
        let mut i: usize = 0;
        while i < data.len()
            invariant
                0 <= i <= data@.len() <= 64,
                arr@.len() == 64,
                forall|j: int| 0 <= j < i ==> arr@[j] == #[trigger] data@[j],
                forall|j: int| i <= j < 64 ==> arr@[j] == 0u8,
            decreases data@.len() - i,
        {
            arr[i] = data[i];
            i += 1;
        }
        proof {
            assert(arr@ =~= data@ + Seq::new((64 - data@.len()) as nat, |i: int| 0u8));
        }
        Ok(ConfigV1Value(arr))
    }

    /// The slot's text, as a string; empty when the text is not UTF-8.
    pub fn as_str(&self) -> (r: &str)
        ensures
            valid_utf8(slot_text(self@)) ==> r.spec_bytes() == slot_text(self@),
            !valid_utf8(slot_text(self@)) ==> r.spec_bytes().len() == 0,
    {
        let mut nul: usize = 0;
        while nul < 64 && self.0[nul] != 0
            invariant
                0 <= nul <= 64,
                self@.len() == 64,
                forall|j: int| 0 <= j < nul ==> self@[j] != 0,
            decreases 64 - nul,
        {
            nul += 1;
        }
        proof {
            lemma_first_nul(self@);
            assert(first_nul(self@) == nul) by {
                if first_nul(self@) < nul {
                    assert(self@[first_nul(self@)] != 0);
                }
                if first_nul(self@) > nul {
                    assert(self@[nul as int] != 0);
                }
            }
            assert(self@.subrange(0, nul as int) =~= slot_text(self@));
        }
        let text = vstd::slice::slice_subrange(self.0.as_slice(), 0, nul);
        match utf8_from_bytes(text) {
            Some(s) => s,
            None => {
                let empty = "";
                proof {
                    reveal_strlit("");
                    assert(empty@.len() == 0);
                    assert(empty.spec_bytes() =~= Seq::<u8>::empty());
                }
                empty
            },
        }
    }
}

impl Default for ConfigV1Value {
    /// An empty slot: all nul bytes.
    fn default() -> (r: Self)
        ensures
            r@ == Seq::new(64, |i: int| 0u8),
    {
        let arr = [0u8; 64];
        proof {
            assert(arr@ =~= Seq::new(64, |i: int| 0u8));
        }
        ConfigV1Value(arr)
    }
}

/// The record's magic constant, written before and after the fields.
pub open spec fn magic_seq() -> Seq<u8> {
    seq![100u8, 111u8, 111u8, 114u8, 99u8, 111u8, 110u8, 116u8, 114u8, 111u8, 108u8, 118u8, 49u8]
}

/// Whether a 64-byte slot starts with the magic constant.
pub open spec fn has_magic(s: Seq<u8>) -> bool {
    s.len() == 64 && s.subrange(0, 13) == magic_seq()
}

fn magic_array() -> (r: [u8; 13])
    ensures
        r@ == magic_seq(),
{
    let m: [u8; 13] = [100u8, 111u8, 111u8, 114u8, 99u8, 111u8, 110u8, 116u8, 114u8, 111u8, 108u8,
        118u8, 49u8];
    proof {
        assert(m@ =~= magic_seq());
    }
    m
}

/// The full configuration record.
#[derive(Clone, Copy, Debug, PartialEq)]
pub struct ConfigV1 {
    pub pre_magic: ConfigV1Value,
    pub device_name: ConfigV1Value,
    pub wifi_ssid: ConfigV1Value,
    pub wifi_pass: ConfigV1Value,
    pub mqtt_host: ConfigV1Value,
    pub mqtt_port: u16,
    pub mqtt_tls: bool,
    pub mqtt_tls_verify_cert: bool,
    pub mqtt_user: ConfigV1Value,
    pub mqtt_pass: ConfigV1Value,
    pub post_magic: ConfigV1Value,
}

/// The mathematical shape of a record: each slot as its byte sequence.
#[verifier::ext_equal]
pub ghost struct ConfigModel {
    pub pre_magic: Seq<u8>,
    pub device_name: Seq<u8>,
    pub wifi_ssid: Seq<u8>,
    pub wifi_pass: Seq<u8>,
    pub mqtt_host: Seq<u8>,
    pub mqtt_port: u16,
    pub mqtt_tls: bool,
    pub mqtt_tls_verify_cert: bool,
    pub mqtt_user: Seq<u8>,
    pub mqtt_pass: Seq<u8>,
    pub post_magic: Seq<u8>,
}

impl View for ConfigV1 {
    type V = ConfigModel;

    open spec fn view(&self) -> ConfigModel {
        ConfigModel {
            pre_magic: self.pre_magic@,
            device_name: self.device_name@,
            wifi_ssid: self.wifi_ssid@,
            wifi_pass: self.wifi_pass@,
            mqtt_host: self.mqtt_host@,
            mqtt_port: self.mqtt_port,
            mqtt_tls: self.mqtt_tls,
            mqtt_tls_verify_cert: self.mqtt_tls_verify_cert,
            mqtt_user: self.mqtt_user@,
            mqtt_pass: self.mqtt_pass@,
            post_magic: self.post_magic@,
        }
    }
}

/// A partial update: only fields that are present and non-empty are merged.
pub struct ConfigV1Update {
    pub device_name: Option<ConfigV1Value>,
    pub wifi_ssid: Option<ConfigV1Value>,
    pub wifi_pass: Option<ConfigV1Value>,
    pub mqtt_host: Option<ConfigV1Value>,
    pub mqtt_port: Option<u16>,
    pub mqtt_tls: Option<bool>,
    pub mqtt_user: Option<ConfigV1Value>,
    pub mqtt_pass: Option<ConfigV1Value>,
}

/// Which slot an update leaves in place: the new value when it is present and
/// its text is non-empty, else the prior value.
pub open spec fn merged_slot(prior: ConfigV1Value, upd: Option<ConfigV1Value>) -> ConfigV1Value {
    match upd {
        Some(v) => if v@[0] != 0 {
            v
        } else {
            prior
        },
        None => prior,
    }
}

/// Distinct failures of reading or writing the record.
#[derive(Clone, Copy, Debug, PartialEq, Eq, Structural)]
pub enum ConfigError {
    /// The buffer cannot hold a record.
    BufferTooSmall,
    /// The leading magic does not match: no record was ever written, or it is
    /// damaged beyond recognition.
    NoConfigOrCorrupt,
    /// The leading magic matches but the trailing one does not: a record was
    /// written and has been damaged.
    Corrupt,
    /// A mandatory field is empty; the record may not be saved.
    Incomplete,
}

impl ConfigError {
    /// A short description of the failure.
    pub fn as_str(&self) -> &'static str {
        match self {
            ConfigError::BufferTooSmall => "buffer too small to contain config",
            ConfigError::NoConfigOrCorrupt => "no config exists or config corrupt",
            ConfigError::Corrupt => "config corrupt",
            ConfigError::Incomplete => "config not complete",
        }
    }
}

/// The size of the encoded record: eight 64-byte slots, a two-byte port and
/// two flag bytes.
pub const CONFIGV1_SIZE: usize = 516;

/// Big-endian bytes of a 16-bit value.
pub open spec fn be16(v: u16) -> Seq<u8> {
    seq![(v / 256) as u8, (v % 256) as u8]
}

pub open spec fn bool_byte(b: bool) -> u8 {
    if b {
        1u8
    } else {
        0u8
    }
}

/// The wire form of a record.
pub open spec fn spec_encode(m: ConfigModel) -> Seq<u8> {
    m.pre_magic + m.device_name + m.wifi_ssid + m.wifi_pass + m.mqtt_host + be16(m.mqtt_port)
        + seq![bool_byte(m.mqtt_tls)] + seq![bool_byte(m.mqtt_tls_verify_cert)] + m.mqtt_user
        + m.mqtt_pass + m.post_magic
}

/// Whether every slot of the model has its fixed width.
pub open spec fn model_wf(m: ConfigModel) -> bool {
    m.pre_magic.len() == 64 && m.device_name.len() == 64 && m.wifi_ssid.len() == 64
        && m.wifi_pass.len() == 64 && m.mqtt_host.len() == 64 && m.mqtt_user.len() == 64
        && m.mqtt_pass.len() == 64 && m.post_magic.len() == 64
}

/// Whether every mandatory field of the record is set.
pub open spec fn spec_complete(m: ConfigModel) -> bool {
    m.device_name[0] != 0 && m.wifi_ssid[0] != 0 && m.wifi_pass[0] != 0 && m.mqtt_host[0] != 0
        && m.mqtt_pass[0] != 0 && m.mqtt_port != 0
}

/// The record read back from a buffer, or which check refused it.
pub open spec fn spec_decode(s: Seq<u8>) -> Result<ConfigModel, ConfigError> {
    if s.len() < 516 {
        Err(ConfigError::BufferTooSmall)
    } else if s.subrange(0, 13) != magic_seq() {
        Err(ConfigError::NoConfigOrCorrupt)
    } else if s.subrange(452, 465) != magic_seq() {
        Err(ConfigError::Corrupt)
    } else {
        Ok(ConfigModel {
            pre_magic: s.subrange(0, 64),
            device_name: s.subrange(64, 128),
            wifi_ssid: s.subrange(128, 192),
            wifi_pass: s.subrange(192, 256),
            mqtt_host: s.subrange(256, 320),
            mqtt_port: (s[320] * 256 + s[321]) as u16,
            mqtt_tls: s[322] == 1,
            mqtt_tls_verify_cert: s[323] == 1,
            mqtt_user: s.subrange(324, 388),
            mqtt_pass: s.subrange(388, 452),
            post_magic: s.subrange(452, 516),
        })
    }
}

impl Default for ConfigV1 {
    /// An unconfigured record: magic bookends in place, every field empty,
    /// the default MQTT port, TLS off but certificate checking on.
    fn default() -> (r: Self)
        ensures
            has_magic(r@.pre_magic),
            has_magic(r@.post_magic),
            r@.pre_magic == magic_seq() + Seq::new(51, |i: int| 0u8),
            r@.post_magic == magic_seq() + Seq::new(51, |i: int| 0u8),
            r@.device_name == Seq::new(64, |i: int| 0u8),
            r@.wifi_ssid == Seq::new(64, |i: int| 0u8),
            r@.wifi_pass == Seq::new(64, |i: int| 0u8),
            r@.mqtt_host == Seq::new(64, |i: int| 0u8),
            r@.mqtt_user == Seq::new(64, |i: int| 0u8),
            r@.mqtt_pass == Seq::new(64, |i: int| 0u8),
            r@.mqtt_port == 1883,
            !r@.mqtt_tls,
            r@.mqtt_tls_verify_cert,
    {
        let magic = magic_array();
        let mut slot = [0u8; 64];
        let mut i: usize = 0;
        while i < 13
            invariant
                0 <= i <= 13,
                slot@.len() == 64,
                magic@ == magic_seq(),
                forall|j: int| 0 <= j < i ==> slot@[j] == #[trigger] magic_seq()[j],
                forall|j: int| i <= j < 64 ==> slot@[j] == 0u8,
            decreases 13 - i,
        {
            slot[i] = magic[i];
            i += 1;
        }
        let magic_slot = ConfigV1Value(slot);
        proof {
            assert(magic_slot@ =~= magic_seq() + Seq::new(51, |i: int| 0u8));
            assert(magic_slot@.subrange(0, 13) =~= magic_seq());
        }
        ConfigV1 {
            pre_magic: magic_slot,
            device_name: ConfigV1Value::default(),
            wifi_ssid: ConfigV1Value::default(),
            wifi_pass: ConfigV1Value::default(),
            mqtt_host: ConfigV1Value::default(),
            mqtt_port: 1883,
            mqtt_tls: false,
            mqtt_tls_verify_cert: true,
            mqtt_user: ConfigV1Value::default(),
            mqtt_pass: ConfigV1Value::default(),
            post_magic: magic_slot,
        }
    }
}

impl ConfigV1 {
    /// Merges a partial update: a slot is replaced only when the update
    /// carries a non-empty value for it, the port only when non-zero, the TLS
    /// flag whenever present. No field is ever cleared.
    pub fn update(&mut self, update: &ConfigV1Update)
        ensures
            final(self).device_name == merged_slot(old(self).device_name, update.device_name),
            final(self).wifi_ssid == merged_slot(old(self).wifi_ssid, update.wifi_ssid),
            final(self).wifi_pass == merged_slot(old(self).wifi_pass, update.wifi_pass),
            final(self).mqtt_host == merged_slot(old(self).mqtt_host, update.mqtt_host),
            final(self).mqtt_user == merged_slot(old(self).mqtt_user, update.mqtt_user),
            final(self).mqtt_pass == merged_slot(old(self).mqtt_pass, update.mqtt_pass),
            final(self).mqtt_port == (match update.mqtt_port {
                Some(p) => if p != 0 {
                    p
                } else {
                    old(self).mqtt_port
                },
                None => old(self).mqtt_port,
            }),
            final(self).mqtt_tls == (match update.mqtt_tls {
                Some(t) => t,
                None => old(self).mqtt_tls,
            }),
            final(self).mqtt_tls_verify_cert == old(self).mqtt_tls_verify_cert,
            final(self).pre_magic == old(self).pre_magic,
            final(self).post_magic == old(self).post_magic,
    {
        if let Some(value) = update.device_name {
            if value.0[0] != 0 {
                self.device_name = value;
            }
        }
        if let Some(value) = update.wifi_ssid {
            if value.0[0] != 0 {
                self.wifi_ssid = value;
            }
        }
        if let Some(value) = update.wifi_pass {
            if value.0[0] != 0 {
                self.wifi_pass = value;
            }
        }
        if let Some(value) = update.mqtt_host {
            if value.0[0] != 0 {
                self.mqtt_host = value;
            }
        }
        if let Some(value) = update.mqtt_port {
            if value != 0 {
                self.mqtt_port = value;
            }
        }
        if let Some(value) = update.mqtt_tls {
            self.mqtt_tls = value;
        }
        if let Some(value) = update.mqtt_user {
            if value.0[0] != 0 {
                self.mqtt_user = value;
            }
        }
        if let Some(value) = update.mqtt_pass {
            if value.0[0] != 0 {
                self.mqtt_pass = value;
            }
        }
    }

    /// Whether every mandatory field is set, so the record may be saved.
    pub fn complete(&self) -> (r: bool)
        ensures
            r == spec_complete(self@),
    {
        self.device_name.0[0] != 0 && self.wifi_ssid.0[0] != 0 && self.wifi_pass.0[0] != 0
            && self.mqtt_host.0[0] != 0 && self.mqtt_pass.0[0] != 0 && self.mqtt_port != 0
    }

    /// Serializes the record; an incomplete record is refused, which is the
    /// single save-time validation gate.
    pub fn encode(&self) -> (r: Result<Vec<u8>, ConfigError>)
        ensures
            r matches Ok(bytes) ==> bytes@ == spec_encode(self@) && spec_complete(self@),
            r matches Err(e) ==> e == ConfigError::Incomplete && !spec_complete(self@),
    {
        if !self.complete() {
            return Err(ConfigError::Incomplete);
        }
        let mut out: Vec<u8> = Vec::new();
        out.extend_from_slice(self.pre_magic.0.as_slice());
        out.extend_from_slice(self.device_name.0.as_slice());
        out.extend_from_slice(self.wifi_ssid.0.as_slice());
        out.extend_from_slice(self.wifi_pass.0.as_slice());
        out.extend_from_slice(self.mqtt_host.0.as_slice());
        out.push((self.mqtt_port / 256) as u8);
        out.push((self.mqtt_port % 256) as u8);
        out.push(if self.mqtt_tls {
            1
        } else {
            0
        });
        out.push(if self.mqtt_tls_verify_cert {
            1
        } else {
            0
        });
        out.extend_from_slice(self.mqtt_user.0.as_slice());
        out.extend_from_slice(self.mqtt_pass.0.as_slice());
        out.extend_from_slice(self.post_magic.0.as_slice());
        proof {
            assert(out@ =~= spec_encode(self@));
        }
        Ok(out)
    }

    /// Reads a record back from a buffer, validating both magic bookends
    /// before trusting any field; each failure is reported distinctly.
    pub fn decode(buf: &[u8]) -> (r: Result<ConfigV1, ConfigError>)
        ensures
            r matches Ok(c) ==> spec_decode(buf@) == Ok::<ConfigModel, ConfigError>(c@),
            r matches Err(e) ==> spec_decode(buf@) == Err::<ConfigModel, ConfigError>(e),
    {
        if buf.len() < CONFIGV1_SIZE {
            return Err(ConfigError::BufferTooSmall);
        }
        let magic = magic_array();
        if !crate::ascii::bytes_eq(
            vstd::slice::slice_subrange(buf, 0, 13),
            magic.as_slice(),
        ) {
            return Err(ConfigError::NoConfigOrCorrupt);
        }
        if !crate::ascii::bytes_eq(
            vstd::slice::slice_subrange(buf, 452, 465),
            magic.as_slice(),
        ) {
            return Err(ConfigError::Corrupt);
        }
        let port = (buf[320] as u16) * 256 + (buf[321] as u16);
        let c = ConfigV1 {
            pre_magic: read_slot(buf, 0),
            device_name: read_slot(buf, 64),
            wifi_ssid: read_slot(buf, 128),
            wifi_pass: read_slot(buf, 192),
            mqtt_host: read_slot(buf, 256),
            mqtt_port: port,
            mqtt_tls: buf[322] == 1,
            mqtt_tls_verify_cert: buf[323] == 1,
            mqtt_user: read_slot(buf, 324),
            mqtt_pass: read_slot(buf, 388),
            post_magic: read_slot(buf, 452),
        };
        proof {
            assert(spec_decode(buf@) is Ok);
            assert(spec_decode(buf@)->Ok_0 =~= c@);
        }
        Ok(c)
    }
}

/// Copies one 64-byte slot out of a record buffer.
fn read_slot(buf: &[u8], off: usize) -> (r: ConfigV1Value)
    requires
        off + 64 <= buf@.len(),
    ensures
        r@ == buf@.subrange(off as int, off as int + 64),
{
    let len = buf.len();
    let mut arr = [0u8; 64];
    let mut i: usize = 0;
    while i < 64
        invariant
            0 <= i <= 64,
            arr@.len() == 64,
            off + 64 <= len == buf@.len(),
            forall|j: int| 0 <= j < i ==> arr@[j] == #[trigger] buf@[off as int + j],
        decreases 64 - i,
    {
        arr[i] = buf[off + i];
        i += 1;
    }
    proof {
        assert forall|j: int| 0 <= j < 64 implies arr@[j] == buf@.subrange(
            off as int,
            off as int + 64,
        )[j] by {
            assert(arr@[j] == buf@[off as int + j]);
        }
        assert(arr@ =~= buf@.subrange(off as int, off as int + 64));
    }
    ConfigV1Value(arr)
}

/// Law: decoding an encoded record yields the record back, for any complete,
/// well-formed record with both magic bookends in place.
pub proof fn lemma_config_roundtrip(m: ConfigModel)
    requires
        model_wf(m),
        has_magic(m.pre_magic),
        has_magic(m.post_magic),
        spec_complete(m),
    ensures
        spec_decode(spec_encode(m)) == Ok::<ConfigModel, ConfigError>(m),
{
    let s = spec_encode(m);
    assert(s.len() == 516);
    assert(s.subrange(0, 13) =~= m.pre_magic.subrange(0, 13));
    assert(s.subrange(452, 465) =~= m.post_magic.subrange(0, 13));
    assert(s.subrange(0, 64) =~= m.pre_magic);
    assert(s.subrange(64, 128) =~= m.device_name);
    assert(s.subrange(128, 192) =~= m.wifi_ssid);
    assert(s.subrange(192, 256) =~= m.wifi_pass);
    assert(s.subrange(256, 320) =~= m.mqtt_host);
    assert(s[320] == (m.mqtt_port / 256) as u8);
    assert(s[321] == (m.mqtt_port % 256) as u8);
    assert(s[320] * 256 + s[321] == m.mqtt_port);
    assert(s[322] == bool_byte(m.mqtt_tls));
    assert(s[323] == bool_byte(m.mqtt_tls_verify_cert));
    assert(s.subrange(324, 388) =~= m.mqtt_user);
    assert(s.subrange(388, 452) =~= m.mqtt_pass);
    assert(s.subrange(452, 516) =~= m.post_magic);
    assert(spec_decode(s)->Ok_0 =~= m);
}

} // verus!
