//! Anonymizing exported registry fixtures: every product name, vendor name,
//! serial number and registry entry name is replaced by a numbered placeholder.

use vstd::prelude::*;
use vstd::string::*;
use vstd::utf8::{encode_utf8, valid_utf8};
use crate::text::{dec, u64_to_dec};

verus! {

/// The bytes `String::from_utf8_lossy` makes of `data`.
pub uninterp spec fn lossy_utf8(data: Seq<u8>) -> Seq<u8>;

/// The successive non-overlapping matches (byte ranges) that the regular
/// expression `pattern` finds in `haystack`, or `None` when it does not compile.
pub uninterp spec fn regex_match_spans(pattern: Seq<char>, haystack: Seq<u8>) -> Option<
    Seq<(usize, usize)>,
>;

/// Decodes bytes as UTF-8, replacing each invalid sequence by U+FFFD.
/// Calls `String::from_utf8_lossy`: the result is valid UTF-8, it is the input
/// itself when the input is valid UTF-8, and it depends on the input alone.
#[verifier::external_body]
fn utf8_lossy(data: &[u8]) -> (r: Vec<u8>)
    ensures
        r@ == lossy_utf8(data@),
        valid_utf8(r@),
        valid_utf8(data@) ==> r@ == data@,
{
    String::from_utf8_lossy(data).into_owned().into_bytes()
}

/// Spans in increasing order, each within the haystack and not overlapping the next.
pub open spec fn spans_ordered(spans: Seq<(usize, usize)>, len: int) -> bool {
    &&& forall|i: int| 0 <= i < spans.len() ==> #[trigger] spans[i].0 <= spans[i].1 <= len
    &&& forall|i: int, j: int|
        #![trigger spans[i], spans[j]]
        0 <= i && j == i + 1 && j < spans.len() ==> spans[i].1 <= spans[j].0
}

/// Finds every match of a regular expression in bytes.
/// Calls `regex::bytes::Regex::new` (`None` when the pattern does not compile)
/// and `find_iter`, whose matches are successive, non-overlapping, with
/// `start <= end`, inside the haystack; the matches depend on the pattern and
/// the haystack alone.
#[verifier::external_body]
fn find_match_spans(pattern: &str, haystack: &[u8]) -> (r: Option<Vec<(usize, usize)>>)
    ensures
        match r {
            Some(v) => regex_match_spans(pattern@, haystack@) == Some(v@) && spans_ordered(
                v@,
                haystack@.len() as int,
            ),
            None => regex_match_spans(pattern@, haystack@) is None,
        },
{
    match regex::bytes::Regex::new(pattern) {
        Ok(re) => Some(re.find_iter(haystack).map(|m| (m.start(), m.end())).collect()),
        Err(_) => None,
    }
}

/// The `n`-th replacement for `key`:
/// `<key>KEY</key><string>FAKE-PREFIX-n</string>`, UTF-8 encoded.
pub open spec fn replacement(key: Seq<char>, prefix: Seq<char>, n: nat) -> Seq<u8> {
    encode_utf8(
        "<key>"@ + key + "</key><string>FAKE-"@ + prefix + "-"@ + dec(n) + "</string>"@,
    )
}

/// Where the text before span `k` starts: 0, or the end of span `k - 1`.
pub open spec fn gap_start(spans: Seq<(usize, usize)>, k: int) -> int {
    if k == 0 {
        0
    } else {
        spans[k - 1].1 as int
    }
}

/// The text up to the end of span `k - 1`, with spans 0..k replaced by the
/// replacements numbered 1..=k.
pub open spec fn replaced_prefix(
    text: Seq<u8>,
    spans: Seq<(usize, usize)>,
    key: Seq<char>,
    prefix: Seq<char>,
    k: nat,
) -> Seq<u8>
    decreases k,
{
    if k == 0 {
        seq![]
    } else {
        replaced_prefix(text, spans, key, prefix, (k - 1) as nat) + text.subrange(
            gap_start(spans, k - 1),
            spans[k - 1].0 as int,
        ) + replacement(key, prefix, k)
    }
}

/// The text with every span replaced, the replacements numbered from 1 in order.
pub open spec fn replace_spans(
    text: Seq<u8>,
    spans: Seq<(usize, usize)>,
    key: Seq<char>,
    prefix: Seq<char>,
) -> Seq<u8> {
    replaced_prefix(text, spans, key, prefix, spans.len()) + text.subrange(
        gap_start(spans, spans.len() as int),
        text.len() as int,
    )
}

/// The anonymization rules, in the order they are applied: the pattern, the
/// key it rewrites, and the placeholder prefix.
pub open spec fn rule(i: int) -> (Seq<char>, Seq<char>, Seq<char>) {
    if i == 0 {
        (r"<key>Product</key>\s*<string>[^<]+</string>"@, "Product"@, "PRODUCT"@)
    } else if i == 1 {
        (r"<key>USB Product Name</key>\s*<string>[^<]+</string>"@, "USB Product Name"@, "PRODUCT"@)
    } else if i == 2 {
        (r"<key>kUSBProductString</key>\s*<string>[^<]+</string>"@, "kUSBProductString"@, "PRODUCT"@)
    } else if i == 3 {
        (r"<key>kUSBString</key>\s*<string>[^<]+</string>"@, "kUSBString"@, "PRODUCT"@)
    } else if i == 4 {
        (r"<key>IOAudioDeviceModelID</key>\s*<string>[^<]+</string>"@, "IOAudioDeviceModelID"@, "PRODUCT"@)
    } else if i == 5 {
        (r"<key>IOAudioDeviceName</key>\s*<string>[^<]+</string>"@, "IOAudioDeviceName"@, "PRODUCT"@)
    } else if i == 6 {
        (r"<key>IOAudioEngineDescription</key>\s*<string>[^<]+</string>"@, "IOAudioEngineDescription"@, "PRODUCT"@)
    } else if i == 7 {
        (r"<key>IOAudioEngineGlobalUniqueID</key>\s*<string>[^<]+</string>"@, "IOAudioEngineGlobalUniqueID"@, "UNIQUE-ID"@)
    } else if i == 8 {
        (r"<key>IORegistryEntryName</key>\s*<string>[^<]+</string>"@, "IORegistryEntryName"@, "ENTRY"@)
    } else if i == 9 {
        (r"<key>Manufacturer</key>\s*<string>[^<]+</string>"@, "Manufacturer"@, "VENDOR"@)
    } else if i == 10 {
        (r"<key>IOAudioDeviceManufacturerName</key>\s*<string>[^<]+</string>"@, "IOAudioDeviceManufacturerName"@, "VENDOR"@)
    } else if i == 11 {
        (r"<key>USB Vendor Name</key>\s*<string>[^<]+</string>"@, "USB Vendor Name"@, "VENDOR"@)
    } else if i == 12 {
        (r"<key>kUSBVendorString</key>\s*<string>[^<]+</string>"@, "kUSBVendorString"@, "VENDOR"@)
    } else if i == 13 {
        (r"<key>USB Serial Number</key>\s*<string>[^<]+</string>"@, "USB Serial Number"@, "SERIAL"@)
    } else if i == 14 {
        (r"<key>kUSBSerialNumberString</key>\s*<string>[^<]+</string>"@, "kUSBSerialNumberString"@, "SERIAL"@)
    } else {
        (r"<key>Serial Number</key>\s*<string>[^<]+</string>"@, "Serial Number"@, "SERIAL"@)
    }
}

/// How many anonymization rules there are.
pub open spec fn rule_count() -> nat {
    16
}

/// The text after the first `k` rules: each rule replaces every match of its
/// pattern in the text the previous rules left (a pattern that does not
/// compile leaves the text as it is).
pub open spec fn anonymized_through(text: Seq<u8>, k: nat) -> Seq<u8>
    decreases k,
{
    if k == 0 {
        text
    } else {
        let t = anonymized_through(text, (k - 1) as nat);
        let (pattern, key, prefix) = rule(k - 1);
        match regex_match_spans(pattern, t) {
            Some(spans) => replace_spans(t, spans, key, prefix),
            None => t,
        }
    }
}

fn rule_at(i: usize) -> (r: (&'static str, &'static str, &'static str))
    requires
        i < 16,
    ensures
        (r.0@, r.1@, r.2@) == rule(i as int),
{
    match i {
        0 => (r"<key>Product</key>\s*<string>[^<]+</string>", "Product", "PRODUCT"),
        1 => (r"<key>USB Product Name</key>\s*<string>[^<]+</string>", "USB Product Name", "PRODUCT"),
        2 => (r"<key>kUSBProductString</key>\s*<string>[^<]+</string>", "kUSBProductString", "PRODUCT"),
        3 => (r"<key>kUSBString</key>\s*<string>[^<]+</string>", "kUSBString", "PRODUCT"),
        4 => (r"<key>IOAudioDeviceModelID</key>\s*<string>[^<]+</string>", "IOAudioDeviceModelID", "PRODUCT"),
        5 => (r"<key>IOAudioDeviceName</key>\s*<string>[^<]+</string>", "IOAudioDeviceName", "PRODUCT"),
        6 => (r"<key>IOAudioEngineDescription</key>\s*<string>[^<]+</string>", "IOAudioEngineDescription", "PRODUCT"),
        7 => (r"<key>IOAudioEngineGlobalUniqueID</key>\s*<string>[^<]+</string>", "IOAudioEngineGlobalUniqueID", "UNIQUE-ID"),
        8 => (r"<key>IORegistryEntryName</key>\s*<string>[^<]+</string>", "IORegistryEntryName", "ENTRY"),
        9 => (r"<key>Manufacturer</key>\s*<string>[^<]+</string>", "Manufacturer", "VENDOR"),
        10 => (r"<key>IOAudioDeviceManufacturerName</key>\s*<string>[^<]+</string>", "IOAudioDeviceManufacturerName", "VENDOR"),
        11 => (r"<key>USB Vendor Name</key>\s*<string>[^<]+</string>", "USB Vendor Name", "VENDOR"),
        12 => (r"<key>kUSBVendorString</key>\s*<string>[^<]+</string>", "kUSBVendorString", "VENDOR"),
        13 => (r"<key>USB Serial Number</key>\s*<string>[^<]+</string>", "USB Serial Number", "SERIAL"),
        14 => (r"<key>kUSBSerialNumberString</key>\s*<string>[^<]+</string>", "kUSBSerialNumberString", "SERIAL"),
        _ => (r"<key>Serial Number</key>\s*<string>[^<]+</string>", "Serial Number", "SERIAL"),
    }
}

/// Appends `src[from..to]` to `out`.
fn push_range(out: &mut Vec<u8>, src: &Vec<u8>, from: usize, to: usize)
    requires
        from <= to <= src@.len(),
    ensures
        final(out)@ == old(out)@ + src@.subrange(from as int, to as int),
{
    let mut i = from;
    while i < to
        invariant
            from <= i <= to,
            to <= src@.len(),
            out@ == old(out)@ + src@.subrange(from as int, i as int),
        decreases to - i,
    {
        out.push(src[i]);
        assert(src@.subrange(from as int, i + 1) =~= src@.subrange(from as int, i as int).push(
            src@[i as int],
        ));
        i = i + 1;
    }
}

/// Appends the `n`-th replacement for `key` to `out`.
fn push_replacement(out: &mut Vec<u8>, key: &str, prefix: &str, n: u64)
    ensures
        final(out)@ == old(out)@ + replacement(key@, prefix@, n as nat),
{
    let mut s = "<key>".to_owned();
    s.append(key);
    s.append("</key><string>FAKE-");
    s.append(prefix);
    s.append("-");
    s.append(u64_to_dec(n).as_str());
    s.append("</string>");
    assert(s@ =~= "<key>"@ + key@ + "</key><string>FAKE-"@ + prefix@ + "-"@ + dec(n as nat)
        + "</string>"@);
    let bytes = s.as_str().as_bytes();
    let n_bytes = bytes.len();
    let mut i: usize = 0;
    while i < n_bytes
        invariant
            n_bytes == bytes@.len(),
            bytes@ == encode_utf8(s@),
            i <= n_bytes,
            out@ == old(out)@ + bytes@.subrange(0, i as int),
        decreases n_bytes - i,
    {
        out.push(bytes[i]);
        assert(bytes@.subrange(0, i + 1) =~= bytes@.subrange(0, i as int).push(bytes@[i as int]));
        i = i + 1;
    }
    assert(bytes@.subrange(0, n_bytes as int) =~= bytes@);
}

/// Replaces each span of `text` by the next numbered replacement (see
/// `replacement`): the `n`-th span, counted from 1, gets the number `n`. The
/// spans are those one rule's pattern matched: in order, apart, inside the text.
pub fn replace_all_spans(text: &Vec<u8>, spans: &Vec<(usize, usize)>, key: &str, prefix: &str) -> (r:
    Vec<u8>)
    requires
        spans_ordered(spans@, text@.len() as int),
    ensures
        r@ == replace_spans(text@, spans@, key@, prefix@),
{
    let mut out: Vec<u8> = Vec::new();
    let n = spans.len();
    let mut last_end: usize = 0;
    let mut k: usize = 0;
    while k < n
        invariant
            n == spans@.len(),
            k <= n,
            spans_ordered(spans@, text@.len() as int),
            last_end as int == gap_start(spans@, k as int),
            last_end <= text@.len(),
            k < n ==> last_end <= spans@[k as int].0,
            out@ == replaced_prefix(text@, spans@, key@, prefix@, k as nat),
        decreases n - k,
    {
        let (start, end) = spans[k];
        assert(spans@[k as int].0 <= spans@[k as int].1 <= text@.len());
        push_range(&mut out, text, last_end, start);
        // the counter never passes the number of spans, which fits in usize
        push_replacement(&mut out, key, prefix, (k as u64) + 1);
        last_end = end;
        if k + 1 < n {
            assert(spans@[k as int].1 <= spans@[k + 1].0);
        }
        k = k + 1;
    }
    push_range(&mut out, text, last_end, text.len());
    out
}

/// Anonymizes exported registry data: decodes it as UTF-8 (invalid sequences
/// become U+FFFD) and applies each anonymization rule in turn, numbering the
/// placeholders of each rule from 1 in the order the matches occur.
pub fn anonymize_data(data: &[u8]) -> (r: Vec<u8>)
    ensures
        r@ == anonymized_through(lossy_utf8(data@), rule_count()),
{
    let mut text = utf8_lossy(data);
    let ghost start = text@;
    let mut i: usize = 0;
    while i < 16
        invariant
            i <= 16,
            text@ == anonymized_through(start, i as nat),
        decreases 16 - i,
    {
        let (pattern, key_name, prefix) = rule_at(i);
        match find_match_spans(pattern, text.as_slice()) {
            Some(spans) => {
                text = replace_all_spans(&text, &spans, key_name, prefix);
            },
            None => {},
        }
        i = i + 1;
    }
    text
}

} // verus!
