//! Looks of the launcher: custom images for buttons (as data URLs) and the Windows
//! accent colour.

use vstd::prelude::*;
use base64::Engine;
use crate::command::{lower_ext, opt_view, path_extension_of};
use crate::text::{chars_of, is_space, is_space_exec, string_of, to_ascii_lower};

verus! {

/// Largest image accepted for a button: 20 MiB.
pub const MAX_VISUAL_BYTES: u64 = 20971520;

/// The default accent colour when Windows reports none.
pub const DEFAULT_ACCENT: &'static str = "#0078d4";

/// The character for the 6-bit value `v` in the standard base64 alphabet.
pub open spec fn b64_digit(v: int) -> char {
    if v < 26 {
        ('A' as int + v) as char
    } else if v < 52 {
        ('a' as int + (v - 26)) as char
    } else if v < 62 {
        ('0' as int + (v - 52)) as char
    } else if v == 62 {
        '+'
    } else {
        '/'
    }
}

/// Standard base64 (RFC 4648, with `=` padding): every 3 bytes become 4 characters.
pub open spec fn base64_spec(b: Seq<u8>) -> Seq<char>
    decreases b.len(),
{
    let x0 = b[0] as int;
    let x1 = b[1] as int;
    let x2 = b[2] as int;
    if b.len() == 0 {
        Seq::empty()
    } else if b.len() == 1 {
        seq![b64_digit(x0 / 4), b64_digit((x0 % 4) * 16), '=', '=']
    } else if b.len() == 2 {
        seq![b64_digit(x0 / 4), b64_digit((x0 % 4) * 16 + x1 / 16), b64_digit((x1 % 16) * 4), '=']
    } else {
        seq![
            b64_digit(x0 / 4),
            b64_digit((x0 % 4) * 16 + x1 / 16),
            b64_digit((x1 % 16) * 4 + x2 / 64),
            b64_digit(x2 % 64),
        ] + base64_spec(b.skip(3))
    }
}

/// Calls `base64::engine::general_purpose::STANDARD.encode`.  Trusted claim: the
/// result is the standard RFC 4648 base64 text of the bytes with `=` padding
/// (`base64_spec`); the call only panics when the encoded length overflows `usize`,
/// which the `requires` rules out.
#[verifier::external_body]
fn base64_standard(bytes: &[u8]) -> (r: String)
    requires
        bytes@.len() <= usize::MAX / 2,
    ensures
        r@ == base64_spec(bytes@),
{
    base64::engine::general_purpose::STANDARD.encode(bytes)
}

/// Why an image cannot be used, or its MIME type.
pub open spec fn visual_mime_spec(is_file: bool, len: u64, ext: Option<Seq<char>>) -> Result<Seq<char>, Seq<char>> {
    let e = lower_ext(ext);
    if !is_file {
        Err("请选择图片文件"@)
    } else if len > MAX_VISUAL_BYTES {
        Err("图片最大为 20 MB"@)
    } else if e == "png"@ {
        Ok("image/png"@)
    } else if e == "jpg"@ || e == "jpeg"@ {
        Ok("image/jpeg"@)
    } else if e == "gif"@ {
        Ok("image/gif"@)
    } else if e == "webp"@ {
        Ok("image/webp"@)
    } else if e == "bmp"@ {
        Ok("image/bmp"@)
    } else {
        Err("不支持的图片格式"@)
    }
}

pub open spec fn result_view(r: Result<String, String>) -> Result<Seq<char>, Seq<char>> {
    match r {
        Ok(s) => Ok(s@),
        Err(e) => Err(e@),
    }
}

/// Checks an image for a button, given whether it is a file, its size and its
/// extension: it must be a file of at most 20 MiB in PNG, JPEG, GIF, WebP or BMP
/// (extension compared without case).  Returns its MIME type.
pub fn visual_mime_for(is_file: bool, len: u64, ext: Option<String>) -> (r: Result<String, String>)
    ensures
        result_view(r) == visual_mime_spec(is_file, len, opt_view(ext)),
{
    if !is_file {
        return Err(String::from_str("请选择图片文件"));
    }
    if len > MAX_VISUAL_BYTES {
        return Err(String::from_str("图片最大为 20 MB"));
    }
    let e: Vec<char> = match &ext {
        Some(x) => to_ascii_lower(&chars_of(x.as_str())),
        None => Vec::new(),
    };
    if crate::command::slice_is(&e, "png") {
        Ok(String::from_str("image/png"))
    } else if crate::command::slice_is(&e, "jpg") || crate::command::slice_is(&e, "jpeg") {
        Ok(String::from_str("image/jpeg"))
    } else if crate::command::slice_is(&e, "gif") {
        Ok(String::from_str("image/gif"))
    } else if crate::command::slice_is(&e, "webp") {
        Ok(String::from_str("image/webp"))
    } else if crate::command::slice_is(&e, "bmp") {
        Ok(String::from_str("image/bmp"))
    } else {
        Err(String::from_str("不支持的图片格式"))
    }
}

/// Checks the image file at `path` (see `visual_mime_for`); its extension is taken
/// from the path.
pub fn visual_mime(is_file: bool, len: u64, path: &str) -> (r: Result<String, String>)
    ensures
        result_view(r) == visual_mime_spec(is_file, len, path_extension_of(path@)),
{
    let ext = crate::command::path_extension(path);
    visual_mime_for(is_file, len, ext)
}

/// The data URL of an image: `data:<mime>;base64,<bytes in base64>`.
pub fn visual_data_url(mime: &str, bytes: &[u8]) -> (r: String)
    requires
        bytes@.len() <= usize::MAX / 2,
    ensures
        r@ == "data:"@ + mime@ + ";base64,"@ + base64_spec(bytes@),
{
    let mut r = String::from_str("data:");
    r.append(mime);
    r.append(";base64,");
    let encoded = base64_standard(bytes);
    r.append(encoded.as_str());
    r
}

/// The value of a hexadecimal digit, if `c` is one.
pub open spec fn hex_value(c: char) -> Option<int> {
    if '0' <= c <= '9' {
        Some(c as int - '0' as int)
    } else if 'a' <= c <= 'f' {
        Some(c as int - 'a' as int + 10)
    } else if 'A' <= c <= 'F' {
        Some(c as int - 'A' as int + 10)
    } else {
        None
    }
}

/// The value of a non-empty run of hexadecimal digits (`None` if a character is
/// not a digit).
pub open spec fn hex_digits_value(s: Seq<char>) -> Option<int>
    decreases s.len(),
{
    if s.len() == 0 {
        Some(0)
    } else {
        match (hex_digits_value(s.drop_last()), hex_value(s.last())) {
            (Some(v), Some(d)) => Some(v * 16 + d),
            _ => None,
        }
    }
}

/// `u32::from_str_radix(s, 16)`: an optional `+` followed by at least one
/// hexadecimal digit, with a value that fits in `u32`.
pub open spec fn parse_hex_u32(s: Seq<char>) -> Option<u32> {
    let digits = if s.len() > 0 && s[0] == '+' { s.drop_first() } else { s };
    if digits.len() == 0 {
        None
    } else {
        match hex_digits_value(digits) {
            Some(v) => if v <= u32::MAX {
                Some(v as u32)
            } else {
                None
            },
            None => None,
        }
    }
}

fn parse_hex_u32_exec(s: &[char]) -> (r: Option<u32>)
    ensures
        r == parse_hex_u32(s@),
{
    let start: usize = if s.len() > 0 && s[0] == '+' { 1 } else { 0 };
    let ghost digits = if s@.len() > 0 && s@[0] == '+' { s@.drop_first() } else { s@ };
    assert(digits =~= s@.skip(start as int));
    assert(digits =~= s@.subrange(start as int, s@.len() as int));
    if start == s.len() {
        return None;
    }
    let mut value: u64 = 0;
    let mut i: usize = start;
    assert(s@.subrange(start as int, start as int) =~= Seq::<char>::empty());
    while i < s.len()
        invariant
            start <= i <= s@.len(),
            start < s@.len(),
            digits == s@.subrange(start as int, s@.len() as int),
            digits == (if s@.len() > 0 && s@[0] == '+' { s@.drop_first() } else { s@ }),
            hex_digits_value(s@.subrange(start as int, i as int)) == Some(value as int),
            value <= u32::MAX,
        decreases s.len() - i,
    {
        let c = s[i];
        let d: u64 = if '0' <= c && c <= '9' {
            (c as u32 - '0' as u32) as u64
        } else if 'a' <= c && c <= 'f' {
            (c as u32 - 'a' as u32 + 10) as u64
        } else if 'A' <= c && c <= 'F' {
            (c as u32 - 'A' as u32 + 10) as u64
        } else {
            proof {
                let pre = s@.subrange(start as int, i + 1);
                assert(pre.drop_last() =~= s@.subrange(start as int, i as int));
                lemma_invalid_digit_spoils(s@, start as int, i as int);
            }
            return None;
        };
        let next = value * 16 + d;
        proof {
            let pre = s@.subrange(start as int, i + 1);
            assert(pre.drop_last() =~= s@.subrange(start as int, i as int));
            assert(pre.last() == c);
        }
        if next > u32::MAX as u64 {
            proof {
                lemma_overflow_persists(s@, start as int, i + 1, next as int);
            }
            return None;
        }
        value = next;
        i = i + 1;
    }
    assert(s@.subrange(start as int, s@.len() as int) =~= digits);
    Some(value as u32)
}

/// A bad digit spoils every longer run that contains it.
proof fn lemma_invalid_digit_spoils(s: Seq<char>, start: int, i: int)
    requires
        0 <= start <= i < s.len(),
        hex_value(s[i]) is None,
    ensures
        hex_digits_value(s.subrange(start, s.len() as int)) is None,
{
    lemma_none_extends(s, start, i + 1, s.len() as int);
    let pre = s.subrange(start, i + 1);
    assert(pre.last() == s[i]);
}

proof fn lemma_none_extends(s: Seq<char>, start: int, j: int, k: int)
    requires
        0 <= start <= j <= k <= s.len(),
        j > start,
        hex_value(s[j - 1]) is None || hex_digits_value(s.subrange(start, j)) is None,
    ensures
        hex_digits_value(s.subrange(start, k)) is None,
    decreases k - j,
{
    if j == k {
        let pre = s.subrange(start, j);
        assert(pre.last() == s[j - 1]);
        assert(pre.drop_last() =~= s.subrange(start, j - 1));
    } else {
        lemma_none_extends(s, start, j, k - 1);
        let pre = s.subrange(start, k);
        assert(pre.drop_last() =~= s.subrange(start, k - 1));
    }
}

/// Once the value passes `u32::MAX` it stays above it, or the run is not a number.
proof fn lemma_overflow_persists(s: Seq<char>, start: int, j: int, v: int)
    requires
        0 <= start < j <= s.len(),
        hex_digits_value(s.subrange(start, j)) == Some(v),
        v > u32::MAX,
    ensures
        !(hex_digits_value(s.subrange(start, s.len() as int)) matches Some(w) && w <= u32::MAX),
    decreases s.len() - j,
{
    if j < s.len() {
        let pre = s.subrange(start, j + 1);
        assert(pre.drop_last() =~= s.subrange(start, j));
        match hex_value(s[j]) {
            Some(d) => {
                assert(pre.last() == s[j]);
                assert(d >= 0);
                assert(v * 16 + d > u32::MAX) by (nonlinear_arith)
                    requires
                        v > u32::MAX,
                        d >= 0,
                ;
                lemma_overflow_persists(s, start, j + 1, v * 16 + d);
            },
            None => {
                lemma_invalid_digit_spoils(s, start, j);
            },
        }
    }
}


/// Progress of splitting text at white space: `(words, current word)`.
pub open spec fn words_run(s: Seq<char>) -> (Seq<Seq<char>>, Seq<char>)
    decreases s.len(),
{
    if s.len() == 0 {
        (Seq::empty(), Seq::empty())
    } else {
        let (ws, cur) = words_run(s.drop_last());
        let c = s.last();
        if is_space(c) {
            if cur.len() > 0 {
                (ws.push(cur), Seq::empty())
            } else {
                (ws, cur)
            }
        } else {
            (ws, cur.push(c))
        }
    }
}

/// `str::split_whitespace`: the maximal runs of characters other than white space.
pub open spec fn words_of(s: Seq<char>) -> Seq<Seq<char>> {
    let (ws, cur) = words_run(s);
    if cur.len() > 0 {
        ws.push(cur)
    } else {
        ws
    }
}

/// The first word that starts with `0x`.
pub open spec fn first_hex_word(ws: Seq<Seq<char>>) -> Option<Seq<char>>
    decreases ws.len(),
{
    if ws.len() == 0 {
        None
    } else if crate::text::has_prefix(ws[0], "0x"@) {
        Some(ws[0])
    } else {
        first_hex_word(ws.drop_first())
    }
}

/// `str::trim_start_matches("0x")`: every leading `0x` removed.
pub open spec fn strip_hex_prefixes(s: Seq<char>) -> Seq<char>
    decreases s.len(),
{
    if s.len() >= 2 && s[0] == '0' && s[1] == 'x' {
        strip_hex_prefixes(s.skip(2))
    } else {
        s
    }
}

/// The lower-case hexadecimal digit for `v` (0..16).
pub open spec fn hex_digit(v: int) -> char {
    if v < 10 {
        ('0' as int + v) as char
    } else {
        ('a' as int + (v - 10)) as char
    }
}

/// Two lower-case hexadecimal digits for a byte.
pub open spec fn hex2(v: int) -> Seq<char> {
    seq![hex_digit(v / 16), hex_digit(v % 16)]
}

/// The CSS colour of a registry accent value, stored as 0x00BBGGRR: `#rrggbb`.
pub open spec fn accent_css(v: u32) -> Seq<char> {
    seq!['#'] + hex2(v as int % 256) + hex2((v as int / 256) % 256) + hex2((v as int / 65536) % 256)
}

/// A `#rrggbb` colour written with lower-case hexadecimal digits.
pub open spec fn is_css_colour(c: Seq<char>) -> bool {
    &&& c.len() == 7
    &&& c[0] == '#'
    &&& forall|i: int| 1 <= i < 7 ==> ('0' <= #[trigger] c[i] <= '9' || 'a' <= c[i] <= 'f')
}

proof fn lemma_hex2_reads_back(b: int)
    requires
        0 <= b < 256,
    ensures
        ('0' <= hex2(b)[0] <= '9' || 'a' <= hex2(b)[0] <= 'f'),
        ('0' <= hex2(b)[1] <= '9' || 'a' <= hex2(b)[1] <= 'f'),
        hex_value(hex2(b)[0]) is Some && hex_value(hex2(b)[1]) is Some,
        hex_value(hex2(b)[0])->0 * 16 + hex_value(hex2(b)[1])->0 == b,
{
    let hi = b / 16;
    let lo = b % 16;
    assert(0 <= hi < 16 && 0 <= lo < 16);
    assert(hex_value(hex_digit(hi))->0 == hi);
    assert(hex_value(hex_digit(lo))->0 == lo);
}

/// The accent colour of the registry value `v` (stored as 0x00BBGGRR) is `#rrggbb`
/// with lower-case hexadecimal digits, and reading its three pairs of digits back
/// gives the red, green and blue bytes `v & 0xff`, `(v >> 8) & 0xff` and
/// `(v >> 16) & 0xff`.
pub proof fn law_accent_digits_read_back(v: u32)
    ensures
        is_css_colour(accent_css(v)),
        hex_value(accent_css(v)[1])->0 * 16 + hex_value(accent_css(v)[2])->0 == (v & 0xff) as int,
        hex_value(accent_css(v)[3])->0 * 16 + hex_value(accent_css(v)[4])->0 == ((v >> 8u32) & 0xff) as int,
        hex_value(accent_css(v)[5])->0 * 16 + hex_value(accent_css(v)[6])->0 == ((v >> 16u32) & 0xff) as int,
{
    let c = accent_css(v);
    let r = v as int % 256;
    let g = (v as int / 256) % 256;
    let b = (v as int / 65536) % 256;
    assert(v & 0xff == v % 256) by (bit_vector);
    assert((v >> 8u32) & 0xff == (v / 256) % 256) by (bit_vector);
    assert((v >> 16u32) & 0xff == (v / 65536) % 256) by (bit_vector);
    lemma_hex2_reads_back(r);
    lemma_hex2_reads_back(g);
    lemma_hex2_reads_back(b);
    assert(c[1] == hex2(r)[0] && c[2] == hex2(r)[1]);
    assert(c[3] == hex2(g)[0] && c[4] == hex2(g)[1]);
    assert(c[5] == hex2(b)[0] && c[6] == hex2(b)[1]);
}

/// The accent colour found in the output of `reg query`, if any: the first word
/// starting with `0x`, read as a hexadecimal number.
pub open spec fn accent_spec(output: Seq<char>) -> Option<Seq<char>> {
    match first_hex_word(words_of(output)) {
        None => None,
        Some(raw) => match parse_hex_u32(strip_hex_prefixes(raw)) {
            Some(v) => Some(accent_css(v)),
            None => None,
        },
    }
}

fn words_exec(s: &[char]) -> (r: Vec<Vec<char>>)
    ensures
        crate::command::words_view(r@) == words_of(s@),
{
    let mut ws: Vec<Vec<char>> = Vec::new();
    let mut cur: Vec<char> = Vec::new();
    let mut i: usize = 0;
    while i < s.len()
        invariant
            i <= s@.len(),
            words_run(s@.take(i as int)) == (crate::command::words_view(ws@), cur@),
        decreases s.len() - i,
    {
        let c = s[i];
        proof {
            assert(s@.take(i + 1).drop_last() =~= s@.take(i as int));
            assert(s@.take(i + 1).last() == c);
        }
        if is_space_exec(c) {
            if cur.len() > 0 {
                let word = cur;
                cur = Vec::new();
                let ghost before = crate::command::words_view(ws@);
                let ghost wv = word@;
                ws.push(word);
                assert(crate::command::words_view(ws@) =~= before.push(wv));
            }
        } else {
            cur.push(c);
        }
        i = i + 1;
    }
    assert(s@.take(s@.len() as int) =~= s@);
    if cur.len() > 0 {
        let ghost before = crate::command::words_view(ws@);
        let ghost wv = cur@;
        ws.push(cur);
        assert(crate::command::words_view(ws@) =~= before.push(wv));
    }
    ws
}

fn hex_digit_exec(v: u32) -> (c: char)
    requires
        v < 16,
    ensures
        c == hex_digit(v as int),
{
    if v < 10 {
        let b = (0x30 + v) as u8;
        b as char
    } else {
        let b = (0x61 + (v - 10)) as u8;
        b as char
    }
}

/// The accent colour in the output of `reg query` for an accent value: the first
/// word starting with `0x`, without its `0x` prefixes, read as a hexadecimal `u32`
/// stored as 0x00BBGGRR, and written as `#rrggbb`.  `None` when there is no such
/// word or it is not a number.
pub fn accent_from_reg_output(output: &str) -> (r: Option<String>)
    ensures
        crate::command::opt_view(r) == accent_spec(output@),
        r matches Some(c) ==> is_css_colour(c@),
{
    let s = chars_of(output);
    let ws = words_exec(&s);
    let ghost wv = crate::command::words_view(ws@);
    let mut i: usize = 0;
    let prefix = chars_of("0x");
    assert(wv.skip(0) =~= wv);
    while i < ws.len()
        invariant
            i <= ws@.len(),
            wv == crate::command::words_view(ws@),
            wv == words_of(output@),
            prefix@ == "0x"@,
            first_hex_word(wv) == first_hex_word(wv.skip(i as int)),
        decreases ws.len() - i,
    {
        proof {
            assert(wv.skip(i as int).drop_first() =~= wv.skip(i + 1));
            assert(wv.skip(i as int)[0] == ws@[i as int]@);
        }
        if crate::text::starts_with(&ws[i], &prefix) {
            let raw = &ws[i];
            let mut j: usize = 0;
            proof {
                reveal_strlit("0x");
                assert(raw@.skip(0) =~= raw@);
            }
            while j < raw.len() && raw.len() - j >= 2 && raw[j] == '0' && raw[j + 1] == 'x'
                invariant
                    j <= raw@.len(),
                    strip_hex_prefixes(raw@) == strip_hex_prefixes(raw@.skip(j as int)),
                decreases raw.len() - j,
            {
                assert(raw@.skip(j as int).skip(2) =~= raw@.skip(j + 2));
                j = j + 2;
            }
            let digits = crate::command::slice_chars(raw, j, raw.len());
            assert(digits@ =~= raw@.skip(j as int));
            return match parse_hex_u32_exec(&digits) {
                Some(v) => {
                    let mut out: Vec<char> = Vec::new();
                    out.push('#');
                    let r = v % 256;
                    let g = (v / 256) % 256;
                    let b = (v / 65536) % 256;
                    out.push(hex_digit_exec(r / 16));
                    out.push(hex_digit_exec(r % 16));
                    out.push(hex_digit_exec(g / 16));
                    out.push(hex_digit_exec(g % 16));
                    out.push(hex_digit_exec(b / 16));
                    out.push(hex_digit_exec(b % 16));
                    assert(out@ =~= accent_css(v));
                    proof {
                        law_accent_digits_read_back(v);
                    }
                    Some(string_of(&out))
                },
                None => None,
            };
        }
        i = i + 1;
    }
    None
}

/// The registry values read for the accent colour, in order, as `(key, value name)`.
pub open spec fn accent_registry_values() -> Seq<(Seq<char>, Seq<char>)> {
    seq![
        ("HKCU\\Software\\Microsoft\\Windows\\CurrentVersion\\Explorer\\Accent"@, "AccentColorMenu"@),
        ("HKCU\\Software\\Microsoft\\Windows\\DWM"@, "AccentColor"@),
    ]
}

/// What finding the accent colour does next.
pub enum AccentStep {
    /// Query the registry for the value `.1` of the key `.0`.
    Query(String, String),
    /// The accent colour.
    Found(String),
}

/// The next step of finding the accent colour after `asked` registry queries;
/// `last_output` is what the last one printed, `None` when it could not be run.
/// The first colour found is used; otherwise the next value is queried, and when
/// none is left the default colour is used.
pub fn accent_step(asked: usize, last_output: Option<&str>) -> (r: AccentStep)
    requires
        asked <= 2,
    ensures
        ({
            let found = if asked > 0 {
                match last_output {
                    Some(o) => accent_spec(o@),
                    None => None,
                }
            } else {
                None
            };
            match found {
                Some(c) => r matches AccentStep::Found(f) && f@ == c,
                None => if asked < 2 {
                    r matches AccentStep::Query(k, v) && (k@, v@) == accent_registry_values()[asked as int]
                } else {
                    r matches AccentStep::Found(f) && f@ == DEFAULT_ACCENT@
                },
            }
        }),
{
    if asked > 0 {
        if let Some(o) = last_output {
            if let Some(c) = accent_from_reg_output(o) {
                return AccentStep::Found(c);
            }
        }
    }
    if asked == 0 {
        AccentStep::Query(
            String::from_str("HKCU\\Software\\Microsoft\\Windows\\CurrentVersion\\Explorer\\Accent"),
            String::from_str("AccentColorMenu"),
        )
    } else if asked == 1 {
        AccentStep::Query(String::from_str("HKCU\\Software\\Microsoft\\Windows\\DWM"), String::from_str("AccentColor"))
    } else {
        AccentStep::Found(String::from_str(DEFAULT_ACCENT))
    }
}

} // verus!
