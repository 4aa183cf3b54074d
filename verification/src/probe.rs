//! The five ways of asking a device what it is: what each one sends, how long
//! it waits, and what it makes of the answer.

use crate::snmp::{read_snmp, snmp_model, SnmpValue, SNMP_TIMEOUT_MS};
use crate::text::{
    all_printable_ascii, any_alphabetic, byte_len, chars_of, contains, decode_lossy, fields, has,
    has_alphabetic, is_printable, join_lines, lines, lines_of, lossy_text, on_one_line,
    remove_all, split, string_of, text_of, trim, trimmed, utf8_len, views, without,
};
use vstd::prelude::*;
use vstd::string::StrSliceExecFns;
use vstd::string::StringExecFns;
use vstd::utf8::encode_utf8;

verus! {

/// The TCP port on which printers take control commands.
pub const PRINTER_PORT: u16 = 9100;

/// The most bytes of a response that are read.
pub const MAX_RESPONSE_LEN: usize = 1024;

/// A way of asking a device for its model.
#[derive(Clone, Copy, Debug, PartialEq, Eq, Structural)]
pub enum ProbeKind {
    /// Zebra's Set/Get/Do text commands.
    ZebraSgd,
    /// Printer Job Language.
    Pjl,
    /// Zebra Programming Language, host identification.
    ZebraZpl,
    /// SNMP, system description.
    Snmp,
    /// Whatever the device says unasked.
    RawBanner,
}

/// What an SGD response says: the trimmed response, if it is longer than two
/// characters and all printable ASCII, without its quotes and after "Zebra ".
pub open spec fn sgd_model(text: Seq<char>) -> Option<Seq<char>> {
    let t = trimmed(text);
    if t.len() > 2 && all_printable_ascii(t) {
        Some("Zebra "@ + without(t, "\""@))
    } else {
        None
    }
}

/// Reads an SGD response.
pub fn read_sgd(text: &str) -> (r: Option<String>)
    ensures
        text_of(r) == sgd_model(text@),
{
    let t = trim(&chars_of(text));
    if t.len() > 2 && is_printable(&t) {
        let clean = remove_all(&t, &chars_of("\""));
        let mut out = String::from_str("Zebra ");
        out.append(string_of(&clean).as_str());
        Some(out)
    } else {
        None
    }
}

/// A PJL response without its `ID=` and `ID =` markers and its quotes,
/// trimmed.
pub open spec fn pjl_clean(text: Seq<char>) -> Seq<char> {
    trimmed(without(without(without(text, "ID="@), "ID ="@), "\""@))
}

/// The first of `ls` that holds more than white space.
pub open spec fn first_nonblank(ls: Seq<Seq<char>>) -> Option<Seq<char>>
    decreases ls.len(),
{
    if ls.len() == 0 {
        None
    } else if trimmed(ls.first()).len() > 0 {
        Some(ls.first())
    } else {
        first_nonblank(ls.drop_first())
    }
}

/// What a PJL response says: nothing unless it holds "ID"; else the first
/// line of the cleaned response that is not blank, or "Unknown PJL" where
/// every line is blank.
pub open spec fn pjl_model(text: Seq<char>) -> Option<Seq<char>> {
    if has(text, "ID"@) {
        Some(
            match first_nonblank(lines_of(pjl_clean(text))) {
                Some(line) => line,
                None => "Unknown PJL"@,
            },
        )
    } else {
        None
    }
}

/// Reads a PJL response.
pub fn read_pjl(text: &str) -> (r: Option<String>)
    ensures
        text_of(r) == pjl_model(text@),
{
    let raw = chars_of(text);
    if !contains(&raw, &chars_of("ID")) {
        return None;
    }
    let no_eq = remove_all(&raw, &chars_of("ID="));
    let no_spaced_eq = remove_all(&no_eq, &chars_of("ID ="));
    let no_quotes = remove_all(&no_spaced_eq, &chars_of("\""));
    let clean = trim(&no_quotes);
    let ls = lines(&clean);
    let mut i: usize = 0;
    proof {
        assert(views(ls@).skip(0) == views(ls@));
    }
    while i < ls.len()
        invariant
            i <= ls.len(),
            has(text@, "ID"@),
            views(ls@) == lines_of(pjl_clean(text@)),
            first_nonblank(views(ls@)) == first_nonblank(views(ls@).skip(i as int)),
        decreases ls.len() - i,
    {
        let stripped = trim(&ls[i]);
        proof {
            assert(views(ls@).skip(i as int).first() == ls@[i as int]@);
            assert(views(ls@).skip(i as int).drop_first() == views(ls@).skip(i + 1));
        }
        if stripped.len() > 0 {
            return Some(string_of(&ls[i]));
        }
        i += 1;
    }
    Some(String::from_str("Unknown PJL"))
}

/// Whether field `i` of `fs` takes the most bytes, and is the first to do so.
pub open spec fn is_first_longest(fs: Seq<Seq<char>>, i: int) -> bool {
    &&& 0 <= i < fs.len()
    &&& forall|j: int| 0 <= j < fs.len() ==> utf8_len(#[trigger] fs[j]) <= utf8_len(fs[i])
    &&& forall|j: int| 0 <= j < i ==> utf8_len(#[trigger] fs[j]) < utf8_len(fs[i])
}

/// The field of `fs` that takes the most bytes; of several, the first.
pub open spec fn first_longest(fs: Seq<Seq<char>>) -> Seq<char> {
    fs[choose|i: int| is_first_longest(fs, i)]
}

/// Only one field is the first longest.
pub proof fn lemma_first_longest_unique(fs: Seq<Seq<char>>, i: int, k: int)
    requires
        is_first_longest(fs, i),
        is_first_longest(fs, k),
    ensures
        i == k,
{
    if i < k {
        assert(utf8_len(fs[i]) < utf8_len(fs[k]));
    }
    if k < i {
        assert(utf8_len(fs[k]) < utf8_len(fs[i]));
    }
}

/// What a `~HI` response says: nothing unless it holds a comma; else the
/// longest of its comma-separated fields, trimmed, if that takes more than
/// three bytes, between "Zebra ZPL (" and ")".
pub open spec fn zpl_model(text: Seq<char>) -> Option<Seq<char>> {
    let t = trimmed(first_longest(fields(text, ',')));
    if has(text, ","@) && utf8_len(t) > 3 {
        Some("Zebra ZPL ("@ + t + ")"@)
    } else {
        None
    }
}

/// Reads a `~HI` response.
pub fn read_zpl(text: &str) -> (r: Option<String>)
    ensures
        text_of(r) == zpl_model(text@),
{
    let raw = chars_of(text);
    if !contains(&raw, &chars_of(",")) {
        return None;
    }
    let fs = split(&raw, ',');
    let ghost all = views(fs@);
    assert(fs.len() > 0) by {
        assert(fields(raw@, ',').len() > 0);
    }
    let mut best: usize = 0;
    let mut best_len: u128 = byte_len(&fs[0]);
    let mut i: usize = 1;
    while i < fs.len()
        invariant
            1 <= i <= fs.len(),
            all == views(fs@),
            best < i,
            best_len == utf8_len(all[best as int]),
            forall|j: int| 0 <= j < i ==> utf8_len(#[trigger] all[j]) <= best_len,
            forall|j: int| 0 <= j < best ==> utf8_len(#[trigger] all[j]) < best_len,
        decreases fs.len() - i,
    {
        let len = byte_len(&fs[i]);
        if len > best_len {
            best = i;
            best_len = len;
        }
        i += 1;
    }
    proof {
        assert(is_first_longest(all, best as int));
        lemma_first_longest_unique(all, best as int, choose|i: int| is_first_longest(all, i));
    }
    let t = trim(&fs[best]);
    if byte_len(&t) > 3 {
        let mut out = String::from_str("Zebra ZPL (");
        out.append(string_of(&t).as_str());
        out.append(")");
        Some(out)
    } else {
        None
    }
}

/// What an unasked-for banner says: the banner on one line, trimmed, if it
/// takes more than three bytes and holds a letter.
pub open spec fn banner_model(text: Seq<char>) -> Option<Seq<char>> {
    let t = trimmed(on_one_line(text));
    if utf8_len(t) > 3 && any_alphabetic(t) {
        Some(t)
    } else {
        None
    }
}

/// Reads a banner.
pub fn read_banner(text: &str) -> (r: Option<String>)
    ensures
        text_of(r) == banner_model(text@),
{
    let t = trim(&join_lines(&chars_of(text)));
    if byte_len(&t) > 3 && has_alphabetic(&t) {
        Some(string_of(&t))
    } else {
        None
    }
}

/// The probes in the order in which a host is asked: the specific text
/// protocols first, the bare banner last.
pub open spec fn probe_sequence() -> Seq<ProbeKind> {
    seq![
        ProbeKind::ZebraSgd,
        ProbeKind::Pjl,
        ProbeKind::ZebraZpl,
        ProbeKind::Snmp,
        ProbeKind::RawBanner,
    ]
}

/// The probes in the order in which a host is asked.
pub fn probe_order() -> (r: Vec<ProbeKind>)
    ensures
        r@ == probe_sequence(),
{
    let r: Vec<ProbeKind> = vec![
        ProbeKind::ZebraSgd,
        ProbeKind::Pjl,
        ProbeKind::ZebraZpl,
        ProbeKind::Snmp,
        ProbeKind::RawBanner,
    ];
    assert(r@ =~= probe_sequence());
    r
}

impl ProbeKind {
    /// The place of the probe in the order of asking, from 0.
    pub open spec fn rank(self) -> int {
        match self {
            ProbeKind::ZebraSgd => 0,
            ProbeKind::Pjl => 1,
            ProbeKind::ZebraZpl => 2,
            ProbeKind::Snmp => 3,
            ProbeKind::RawBanner => 4,
        }
    }

    /// The probe that is tried when this one finds nothing.
    pub open spec fn successor(self) -> Option<ProbeKind> {
        if self.rank() + 1 < probe_sequence().len() {
            Some(probe_sequence()[self.rank() + 1])
        } else {
            None
        }
    }

    /// The text of the command that the probe sends to the printer port.
    /// The SNMP probe and the banner probe send nothing there.
    pub open spec fn command_text(self) -> Seq<char> {
        match self {
            ProbeKind::ZebraSgd => "! U1 getvar \"device.product_name\"\r\n"@,
            ProbeKind::Pjl => "\x1B%-12345X@PJL INFO ID\r\n\x1B%-12345X"@,
            ProbeKind::ZebraZpl => "~HI"@,
            ProbeKind::Snmp => ""@,
            ProbeKind::RawBanner => ""@,
        }
    }

    /// How long the probe waits for its answer, in milliseconds.
    pub open spec fn wait(self) -> u64 {
        match self {
            ProbeKind::ZebraSgd => 1500,
            ProbeKind::Pjl => 1000,
            ProbeKind::ZebraZpl => 1000,
            ProbeKind::Snmp => SNMP_TIMEOUT_MS,
            ProbeKind::RawBanner => 500,
        }
    }

    /// The name under which a finding of the probe is reported.
    pub open spec fn tag(self) -> Seq<char> {
        match self {
            ProbeKind::ZebraSgd => "SGD (Zebra)"@,
            ProbeKind::Pjl => "PJL"@,
            ProbeKind::ZebraZpl => "ZPL"@,
            ProbeKind::Snmp => "SNMP"@,
            ProbeKind::RawBanner => "Raw Banner"@,
        }
    }

    /// The first probe that a host is asked.
    pub fn first() -> (r: ProbeKind)
        ensures
            r == probe_sequence()[0],
    {
        ProbeKind::ZebraSgd
    }

    /// The probe that is tried when this one finds nothing, if one is left.
    pub fn next(self) -> (r: Option<ProbeKind>)
        ensures
            r == self.successor(),
    {
        match self {
            ProbeKind::ZebraSgd => Some(ProbeKind::Pjl),
            ProbeKind::Pjl => Some(ProbeKind::ZebraZpl),
            ProbeKind::ZebraZpl => Some(ProbeKind::Snmp),
            ProbeKind::Snmp => Some(ProbeKind::RawBanner),
            ProbeKind::RawBanner => None,
        }
    }

    /// The bytes that the probe sends to the printer port: the UTF-8 of its
    /// command.
    pub fn command(self) -> (r: Vec<u8>)
        ensures
            r@ == encode_utf8(self.command_text()),
    {
        match self {
            ProbeKind::ZebraSgd => "! U1 getvar \"device.product_name\"\r\n".as_bytes_vec(),
            ProbeKind::Pjl => "\x1B%-12345X@PJL INFO ID\r\n\x1B%-12345X".as_bytes_vec(),
            ProbeKind::ZebraZpl => "~HI".as_bytes_vec(),
            ProbeKind::Snmp => "".as_bytes_vec(),
            ProbeKind::RawBanner => "".as_bytes_vec(),
        }
    }

    /// How long the probe waits for its answer, in milliseconds.
    pub fn wait_ms(self) -> (r: u64)
        ensures
            r == self.wait(),
    {
        match self {
            ProbeKind::ZebraSgd => 1500,
            ProbeKind::Pjl => 1000,
            ProbeKind::ZebraZpl => 1000,
            ProbeKind::Snmp => SNMP_TIMEOUT_MS,
            ProbeKind::RawBanner => 500,
        }
    }

    /// The name under which a finding of the probe is reported.
    pub fn source_tag(self) -> (r: String)
        ensures
            r@ == self.tag(),
    {
        match self {
            ProbeKind::ZebraSgd => String::from_str("SGD (Zebra)"),
            ProbeKind::Pjl => String::from_str("PJL"),
            ProbeKind::ZebraZpl => String::from_str("ZPL"),
            ProbeKind::Snmp => String::from_str("SNMP"),
            ProbeKind::RawBanner => String::from_str("Raw Banner"),
        }
    }
}

/// What came back from a host after it was asked something.
#[derive(Clone, Debug, PartialEq, Eq)]
pub enum Reply {
    /// The connection attempt to the printer port ended: `true` if the port
    /// took the connection within the time allowed.
    Port(bool),
    /// The bytes read from the printer port.
    Data(Vec<u8>),
    /// The values of the variable bindings of an SNMP response, in order.
    Snmp(Vec<SnmpValue>),
    /// Nothing: the attempt failed or ran out of time.
    Nothing,
}

/// What a response to a probe on the printer port says, by the probe's own
/// rule. The SNMP probe reads nothing there.
pub open spec fn text_model(kind: ProbeKind, text: Seq<char>) -> Option<Seq<char>> {
    match kind {
        ProbeKind::ZebraSgd => sgd_model(text),
        ProbeKind::Pjl => pjl_model(text),
        ProbeKind::ZebraZpl => zpl_model(text),
        ProbeKind::Snmp => None,
        ProbeKind::RawBanner => banner_model(text),
    }
}

/// Reads the text of a response to a probe on the printer port.
pub fn read_text(kind: ProbeKind, text: &str) -> (r: Option<String>)
    ensures
        text_of(r) == text_model(kind, text@),
{
    match kind {
        ProbeKind::ZebraSgd => read_sgd(text),
        ProbeKind::Pjl => read_pjl(text),
        ProbeKind::ZebraZpl => read_zpl(text),
        ProbeKind::Snmp => None,
        ProbeKind::RawBanner => read_banner(text),
    }
}

/// The model that a reply to a probe yields. Bytes from the printer port
/// count for the probes that ask there, if there are any: they are read as
/// text, lossily. For the SNMP probe the first value of the response
/// counts, if it is an octet string. Everything else yields no model.
pub open spec fn reading(kind: ProbeKind, reply: Reply) -> Option<Seq<char>> {
    match reply {
        Reply::Data(bytes) => if bytes@.len() > 0 {
            text_model(kind, lossy_text(bytes@))
        } else {
            None
        },
        Reply::Snmp(values) => if kind == ProbeKind::Snmp && values@.len() > 0 {
            match values@[0] {
                SnmpValue::OctetString(bytes) => Some(snmp_model(lossy_text(bytes@))),
                SnmpValue::Other => None,
            }
        } else {
            None
        },
        _ => None,
    }
}

/// Reads a reply to a probe.
pub fn interpret(kind: ProbeKind, reply: &Reply) -> (r: Option<String>)
    ensures
        text_of(r) == reading(kind, *reply),
{
    match reply {
        Reply::Data(bytes) => {
            if bytes.len() > 0 {
                let text = decode_lossy(bytes.as_slice());
                read_text(kind, text.as_str())
            } else {
                None
            }
        },
        Reply::Snmp(values) => {
            match kind {
                ProbeKind::Snmp => {
                    if values.len() > 0 {
                        match &values[0] {
                            SnmpValue::OctetString(bytes) => {
                                let text = decode_lossy(bytes.as_slice());
                                Some(read_snmp(text.as_str()))
                            },
                            SnmpValue::Other => None,
                        }
                    } else {
                        None
                    }
                },
                _ => None,
            }
        },
        _ => None,
    }
}

} // verus!
