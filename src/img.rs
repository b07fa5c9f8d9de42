//! Resolution of a file's capture time and content signature from what the
//! image container reports and from its file name.
use vstd::prelude::*;
use crate::datetime::{
    is_valid_date, naive_date_parse, naive_datetime_parse, parse_naive_date, parse_naive_datetime,
    parse_rfc3339, rfc3339_parse, LocalDateTime,
};
use crate::text::{chars_of, digit_value, is_digit, last_index, last_pos, lemma_last_pos, lemma_last_pos_facts, same_text};

verus! {

/// How far a resolved timestamp can be trusted.
#[derive(Clone, Copy, Debug, PartialEq, Eq, Structural)]
pub enum InfoValidScore {
    High,
    Middle,
    Low,
}

/// The image formats the archive takes in.
#[derive(Clone, Copy, Debug, PartialEq, Eq, Structural)]
pub enum ImageFormat {
    Jpeg,
    Jpg,
    Png,
}

/// The name a format goes by, as a file extension.
pub open spec fn format_name(f: ImageFormat) -> Seq<char> {
    match f {
        ImageFormat::Jpeg => seq!['j', 'p', 'e', 'g'],
        ImageFormat::Jpg => seq!['j', 'p', 'g'],
        ImageFormat::Png => seq!['p', 'n', 'g'],
    }
}

/// The format whose name is `s`, if any.
pub open spec fn format_named(s: Seq<char>) -> Option<ImageFormat> {
    if s == format_name(ImageFormat::Jpeg) {
        Some(ImageFormat::Jpeg)
    } else if s == format_name(ImageFormat::Jpg) {
        Some(ImageFormat::Jpg)
    } else if s == format_name(ImageFormat::Png) {
        Some(ImageFormat::Png)
    } else {
        None
    }
}

impl ImageFormat {
    /// The format's name.
    pub fn as_str(&self) -> (r: &'static str)
        ensures
            r@ == format_name(*self),
    {
        match self {
            ImageFormat::Jpeg => {
                proof {
                    reveal_strlit("jpeg");
                }
                "jpeg"
            },
            ImageFormat::Jpg => {
                proof {
                    reveal_strlit("jpg");
                }
                "jpg"
            },
            ImageFormat::Png => {
                proof {
                    reveal_strlit("png");
                }
                "png"
            },
        }
    }

    /// The format with the given name; names are matched exactly.
    pub fn parse(s: &str) -> (r: Option<ImageFormat>)
        ensures
            r == format_named(s@),
    {
        if same_text(s, ImageFormat::Jpeg.as_str()) {
            Some(ImageFormat::Jpeg)
        } else if same_text(s, ImageFormat::Jpg.as_str()) {
            Some(ImageFormat::Jpg)
        } else if same_text(s, ImageFormat::Png.as_str()) {
            Some(ImageFormat::Png)
        } else {
            None
        }
    }
}

/// The last component of a slash-separated path.
pub open spec fn base_name(path: Seq<char>) -> Seq<char> {
    path.subrange(last_pos(path, '/') + 1, path.len() as int)
}

/// A file name without its extension (what follows its last dot, where that
/// dot is not the name's first character).
pub open spec fn file_stem(name: Seq<char>) -> Seq<char> {
    let k = last_pos(name, '.');
    if k <= 0 {
        name
    } else {
        name.subrange(0, k)
    }
}

/// The extension of a file name (what follows its last dot), if it has one;
/// a name whose only dot leads it (`.png`) has none.
pub open spec fn file_extension(name: Seq<char>) -> Option<Seq<char>> {
    let k = last_pos(name, '.');
    if k <= 0 {
        None
    } else {
        Some(name.subrange(k + 1, name.len() as int))
    }
}

/// The number written by the digits `s[i..i+n]`.
pub open spec fn number_at(s: Seq<char>, i: int, n: nat) -> int
    decreases n,
{
    if n == 0 {
        0
    } else {
        number_at(s, i, (n - 1) as nat) * 10 + digit_value(s[i + n - 1])
    }
}

/// Whether the last eight characters of `s` are digits.
pub open spec fn ends_in_digits(s: Seq<char>) -> bool {
    s.len() >= 8 && forall|i: int| s.len() - 8 <= i < s.len() ==> is_digit(#[trigger] s[i])
}

/// The date written as `YYYYMMDD` by the last eight characters of `s`, if
/// they are digits and name a real day.
pub open spec fn trailing_date(s: Seq<char>) -> Option<LocalDateTime> {
    let k = s.len() - 8;
    if ends_in_digits(s) {
        let y = number_at(s, k, 4);
        let m = number_at(s, k + 4, 2);
        let d = number_at(s, k + 6, 2);
        if is_valid_date(y, m, d) {
            Some(LocalDateTime::midnight(y, m, d))
        } else {
            None
        }
    } else {
        None
    }
}

/// The date that a file's name carries: a name that ends in eight digits is
/// read there (a real day or nothing); any other name is read at the end of
/// its stem, its extension left out.
pub open spec fn filename_date(path: Seq<char>) -> Option<(LocalDateTime, InfoValidScore)> {
    let b = base_name(path);
    let t = if ends_in_digits(b) {
        trailing_date(b)
    } else {
        trailing_date(file_stem(b))
    };
    match t {
        Some(t) => Some((t, InfoValidScore::Middle)),
        None => None,
    }
}

/// The date that eight digits `YYYYMMDD` name, at Middle confidence, if the
/// day exists.
pub open spec fn digits_date(digits: Seq<char>) -> Option<(LocalDateTime, InfoValidScore)> {
    let y = number_at(digits, 0, 4);
    let m = number_at(digits, 4, 2);
    let d = number_at(digits, 6, 2);
    if is_valid_date(y, m, d) {
        Some((LocalDateTime::midnight(y, m, d), InfoValidScore::Middle))
    } else {
        None
    }
}

/// Where the name of the file begins in `v` (after the last slash).
fn base_start(v: &Vec<char>) -> (r: usize)
    ensures
        r <= v@.len(),
        v@.subrange(r as int, v@.len() as int) == base_name(v@),
{
    let n = v.len();
    let r = match last_index(v, 0, n, '/') {
        Some(k) => k + 1,
        None => 0,
    };
    assert(v@.subrange(0, n as int) =~= v@);
    r
}

/// Ten to the power `n`.
pub open spec fn pow10(n: nat) -> int
    decreases n,
{
    if n == 0 {
        1
    } else {
        pow10((n - 1) as nat) * 10
    }
}

/// The powers of ten that four digits reach.
proof fn lemma_pow10_small(n: nat)
    requires
        n <= 4,
    ensures
        pow10(n) <= 10000,
        n <= 3 ==> pow10(n) <= 1000,
        pow10(n + 1) == pow10(n) * 10,
{
    assert(pow10(0) == 1);
    assert(pow10(1) == 10);
    assert(pow10(2) == 100);
    assert(pow10(3) == 1000);
    assert(pow10(4) == 10000);
    assert(pow10(n + 1) == pow10(n) * 10);
}

/// The value of the decimal digits `v[i..i+n]`.
fn number_in(v: &Vec<char>, i: usize, n: usize) -> (r: u32)
    requires
        n <= 4,
        i + n <= v@.len(),
        forall|j: int| i <= j < i + n ==> is_digit(#[trigger] v@[j]),
    ensures
        r == number_at(v@, i as int, n as nat),
        r < 10000,
{
    let mut r: u32 = 0;
    let mut j: usize = 0;
    while j < n
        invariant
            j <= n <= 4,
            i + n <= v.len(),
            forall|t: int| i <= t < i + n ==> is_digit(#[trigger] v@[t]),
            r == number_at(v@, i as int, j as nat),
            r < pow10(j as nat),
        decreases n - j,
    {
        let c = v[i + j];
        assert(is_digit(v@[i + j]));
        let d = (c as u32) - ('0' as u32);
        proof {
            lemma_pow10_small(j as nat);
            assert(r * 10 + d < pow10((j + 1) as nat)) by (nonlinear_arith)
                requires
                    r < pow10(j as nat),
                    d < 10,
                    pow10((j + 1) as nat) == pow10(j as nat) * 10,
            ;
        }
        r = r * 10 + d;
        j = j + 1;
    }
    proof {
        lemma_pow10_small(n as nat);
    }
    r
}

/// Whether `v[lo..hi]` ends in eight digits.
fn ends_in_digits_at(v: &Vec<char>, lo: usize, hi: usize) -> (r: bool)
    requires
        lo <= hi <= v@.len(),
    ensures
        r == ends_in_digits(v@.subrange(lo as int, hi as int)),
{
    let ghost sub = v@.subrange(lo as int, hi as int);
    if hi - lo < 8 {
        return false;
    }
    let k = hi - 8;
    let mut i: usize = k;
    while i < hi
        invariant
            lo <= k == hi - 8,
            k <= i <= hi <= v@.len(),
            sub == v@.subrange(lo as int, hi as int),
            forall|j: int| k <= j < i ==> is_digit(#[trigger] v@[j]),
        decreases hi - i,
    {
        let c = v[i];
        if c < '0' || c > '9' {
            assert(sub[i - lo] == v@[i as int]);
            assert(!is_digit(sub[i - lo]));
            return false;
        }
        i = i + 1;
    }
    assert forall|j: int| sub.len() - 8 <= j < sub.len() implies is_digit(#[trigger] sub[j]) by {
        assert(sub[j] == v@[j + lo]);
    }
    true
}

/// The date that `v[lo..hi]` ends with, as `trailing_date` reads it.
fn date_ending_at(v: &Vec<char>, lo: usize, hi: usize) -> (r: Option<LocalDateTime>)
    requires
        lo <= hi <= v@.len(),
    ensures
        r == trailing_date(v@.subrange(lo as int, hi as int)),
        r matches Some(t) ==> t.wf(),
{
    let ghost sub = v@.subrange(lo as int, hi as int);
    if !ends_in_digits_at(v, lo, hi) {
        return None;
    }
    let k = hi - 8;
    assert forall|j: int| k <= j < hi implies is_digit(#[trigger] v@[j]) by {
        assert(sub[j - lo] == v@[j]);
    }
    let y = number_in(v, k, 4);
    let m = number_in(v, k + 4, 2);
    let d = number_in(v, k + 6, 2);
    proof {
        lemma_number_shift(v@, lo as int, hi as int, k as int, 4);
        lemma_number_shift(v@, lo as int, hi as int, (k + 4) as int, 2);
        lemma_number_shift(v@, lo as int, hi as int, (k + 6) as int, 2);
    }
    LocalDateTime::from_ymd(y as i32, m, d)
}

/// Reads the date at the end of a file's name: the last eight characters of
/// the name when they are digits, else the last eight of its stem; written
/// `YYYYMMDD` and naming a real day.
pub fn retrieve_filename_datetime(name: &str) -> (r: Option<(LocalDateTime, InfoValidScore)>)
    ensures
        r == filename_date(name@),
        r matches Some((t, _)) ==> t.wf(),
{
    let v = chars_of(name);
    let n = v.len();
    let lo = base_start(&v);
    let ghost base = v@.subrange(lo as int, n as int);
    assert(base == base_name(name@));
    let t = if ends_in_digits_at(&v, lo, n) {
        date_ending_at(&v, lo, n)
    } else {
        let hi = match last_index(&v, lo, n, '.') {
            Some(k) => if k > lo { k } else { n },
            None => n,
        };
        assert(file_stem(base) =~= v@.subrange(lo as int, hi as int));
        date_ending_at(&v, lo, hi)
    };
    match t {
        Some(t) => Some((t, InfoValidScore::Middle)),
        None => None,
    }
}

/// Equal digits read as equal numbers, wherever they stand.
proof fn lemma_number_same(s: Seq<char>, i: int, t: Seq<char>, k: int, n: nat)
    requires
        forall|j: int| 0 <= j < n ==> #[trigger] s[i + j] == t[k + j],
    ensures
        number_at(s, i, n) == number_at(t, k, n),
    decreases n,
{
    if n > 0 {
        assert(s[i + (n - 1)] == t[k + (n - 1)]);
        lemma_number_same(s, i, t, k, (n - 1) as nat);
    }
}

/// Where `name` is `prefix + digits + rest` and neither the digits nor `rest`
/// hold a slash, the file's name is the part of `prefix` after its last
/// slash, then the digits, then `rest`; it starts at `q` in `name`.
proof fn lemma_base_of(prefix: Seq<char>, digits: Seq<char>, rest: Seq<char>) -> (q: int)
    requires
        digits.len() == 8,
        forall|i: int| 0 <= i < 8 ==> is_digit(#[trigger] digits[i]),
        forall|i: int| 0 <= i < rest.len() ==> #[trigger] rest[i] != '/',
    ensures
        0 <= q <= prefix.len(),
        base_name(prefix + digits + rest) == (prefix + digits + rest).subrange(q, (prefix + digits + rest).len() as int),
        base_name(prefix + digits + rest).len() == prefix.len() - q + 8 + rest.len(),
        forall|j: int| 0 <= j < 8 ==> #[trigger] base_name(prefix + digits + rest)[prefix.len() - q + j] == digits[j],
        forall|j: int| 0 <= j < rest.len() ==> #[trigger] base_name(prefix + digits + rest)[prefix.len() - q + 8 + j] == rest[j],
{
    let name = prefix + digits + rest;
    let p = prefix.len() as int;
    lemma_last_pos_facts(prefix, '/');
    let lp = last_pos(prefix, '/');
    assert forall|j: int| lp < j < name.len() implies name[j] != '/' by {
        if j >= p + 8 {
            assert(name[j] == rest[j - p - 8]);
        } else if j >= p {
            assert(name[j] == digits[j - p]);
            assert(is_digit(digits[j - p]));
        } else {
            assert(name[j] == prefix[j]);
        }
    }
    if lp >= 0 {
        assert(name[lp] == prefix[lp]);
    }
    lemma_last_pos(name, '/', lp);
    let q = lp + 1;
    let base = base_name(name);
    assert forall|j: int| 0 <= j < 8 implies #[trigger] base[p - q + j] == digits[j] by {
        assert(base[p - q + j] == name[p + j]);
    }
    assert forall|j: int| 0 <= j < rest.len() implies #[trigger] base[p - q + 8 + j] == rest[j] by {
        assert(base[p - q + 8 + j] == name[p + 8 + j]);
    }
    q
}

/// A file name that ends in eight digits `YYYYMMDD` carries that day (at
/// midnight, with Middle confidence) when the day exists in the calendar,
/// and no date otherwise. What precedes the digits, directories and dots
/// included, does not matter.
pub proof fn lemma_filename_date(prefix: Seq<char>, digits: Seq<char>)
    requires
        digits.len() == 8,
        forall|i: int| 0 <= i < 8 ==> is_digit(#[trigger] digits[i]),
    ensures
        filename_date(prefix + digits) == digits_date(digits),
{
    let rest = Seq::<char>::empty();
    assert(prefix + digits + rest =~= prefix + digits);
    let q = lemma_base_of(prefix, digits, rest);
    let base = base_name(prefix + digits);
    let s = prefix.len() - q;
    assert(base.len() - 8 == s);
    assert forall|i: int| base.len() - 8 <= i < base.len() implies is_digit(#[trigger] base[i]) by {
        assert(base[s + (i - s)] == digits[i - s]);
    }
    lemma_number_same(base, s, digits, 0, 4);
    lemma_number_same(base, s + 4, digits, 4, 2);
    lemma_number_same(base, s + 6, digits, 6, 2);
}

/// A file name whose stem ends in eight digits `YYYYMMDD`, followed by one
/// extension that does not itself end in eight digits, carries that day when
/// it exists, and no date otherwise.
pub proof fn lemma_filename_date_extension(prefix: Seq<char>, digits: Seq<char>, ext: Seq<char>)
    requires
        digits.len() == 8,
        forall|i: int| 0 <= i < 8 ==> is_digit(#[trigger] digits[i]),
        forall|i: int| 0 <= i < ext.len() ==> #[trigger] ext[i] != '.' && ext[i] != '/',
        !ends_in_digits(ext),
    ensures
        filename_date(prefix + digits + seq!['.'] + ext) == digits_date(digits),
{
    let rest = seq!['.'] + ext;
    assert(prefix + digits + rest =~= prefix + digits + seq!['.'] + ext);
    assert forall|i: int| 0 <= i < rest.len() implies #[trigger] rest[i] != '/' by {
        if i > 0 {
            assert(rest[i] == ext[i - 1]);
        }
    }
    let q = lemma_base_of(prefix, digits, rest);
    let base = base_name(prefix + digits + rest);
    let s = prefix.len() - q;
    assert(base[s + 8] == rest[0]);
    assert(!ends_in_digits(base)) by {
        if ext.len() >= 8 {
            let w = choose|i: int| ext.len() - 8 <= i < ext.len() && !is_digit(#[trigger] ext[i]);
            assert(base[s + 8 + (1 + w)] == rest[1 + w]);
            assert(rest[1 + w] == ext[w]);
        } else {
            assert(!is_digit(base[s + 8]));
        }
    }
    assert forall|j: int| s + 8 < j < base.len() implies base[j] != '.' by {
        assert(base[s + 8 + (j - s - 8)] == rest[j - s - 8]);
        assert(rest[j - s - 8] == ext[j - s - 9]);
    }
    lemma_last_pos(base, '.', s + 8);
    let stem = file_stem(base);
    assert(stem.len() == s + 8);
    assert forall|i: int| stem.len() - 8 <= i < stem.len() implies is_digit(#[trigger] stem[i]) by {
        assert(stem[i] == base[s + (i - s)]);
    }
    assert forall|j: int| 0 <= j < 8 implies #[trigger] stem[s + j] == digits[j] by {
        assert(stem[s + j] == base[s + j]);
    }
    lemma_number_same(stem, s, digits, 0, 4);
    lemma_number_same(stem, s + 4, digits, 4, 2);
    lemma_number_same(stem, s + 6, digits, 6, 2);
}

/// Reading digits through a window of `s` reads the same digits of `s`.
proof fn lemma_number_shift(s: Seq<char>, lo: int, hi: int, i: int, n: nat)
    requires
        0 <= lo <= i,
        i + n <= hi <= s.len(),
    ensures
        number_at(s.subrange(lo, hi), i - lo, n) == number_at(s, i, n),
    decreases n,
{
    if n > 0 {
        lemma_number_shift(s, lo, hi, i, (n - 1) as nat);
    }
}

/// Property holding the capture time.
pub const EXIF_DATE_TIME: &'static str = "exif:DateTime";

/// Property holding the original capture time.
pub const EXIF_DATE_TIME_ORIGINAL: &'static str = "exif:DateTimeOriginal";

/// Property holding the GPS date.
pub const EXIF_GPS_DATE_STAMP: &'static str = "exif:GPSDateStamp";

/// Container property: when the file was created (RFC 3339).
pub const DATE_CREATE: &'static str = "date:create";

/// Container property: when the file was last modified (RFC 3339).
pub const DATE_MODIFY: &'static str = "date:modify";

/// Property holding the content fingerprint.
pub const SIGNATURE: &'static str = "signature";

/// Layout of a capture time with dashes in the date.
pub const CAPTURE_LAYOUT_DASHED: &'static str = "%Y-%m-%d %H:%M:%S";

/// Layout of a capture time with colons in the date.
pub const CAPTURE_LAYOUT_COLONS: &'static str = "%Y:%m:%d %H:%M:%S";

/// Layout of the GPS date.
pub const GPS_DATE_LAYOUT: &'static str = "%Y-%m-%d";

/// The properties of one image file that resolution reads; `None` where the
/// file does not carry the property.
pub struct ImageTags {
    pub date_time: Option<String>,
    pub date_time_original: Option<String>,
    pub gps_date_stamp: Option<String>,
    pub date_create: Option<String>,
    pub date_modify: Option<String>,
    pub signature: Option<String>,
}

/// The outcome of resolving one file.
pub struct ImgMeta {
    pub sig: Option<String>,
    pub time: Option<LocalDateTime>,
    pub score: Option<InfoValidScore>,
}

/// Why a file could not be resolved.
#[derive(Clone, Copy, Debug, PartialEq, Eq, Structural)]
pub enum ResolutionError {
    /// No source gave a timestamp.
    NoTimestamp,
    /// The file has no content fingerprint.
    NoSignature,
    /// The file could not be read as an image.
    DecodeFailure,
}

/// The first layout of `layouts` under which `text` parses as a date and time.
pub open spec fn parse_first(text: Seq<char>, layouts: Seq<&str>) -> Option<LocalDateTime>
    decreases layouts.len(),
{
    if layouts.len() == 0 {
        None
    } else {
        match naive_datetime_parse(text, layouts[0]@) {
            Some(t) => Some(t),
            None => parse_first(text, layouts.drop_first()),
        }
    }
}

/// Parses `time` under each layout in turn and keeps the first success.
pub fn parse_in_multi_formats(time: &str, formats: &Vec<&str>) -> (r: Option<LocalDateTime>)
    ensures
        r == parse_first(time@, formats@),
        r matches Some(t) ==> t.wf(),
{
    let mut i: usize = 0;
    assert(formats@.subrange(0, formats@.len() as int) =~= formats@);
    while i < formats.len()
        invariant
            i <= formats@.len(),
            parse_first(time@, formats@) == parse_first(time@, formats@.subrange(i as int, formats@.len() as int)),
        decreases formats@.len() - i,
    {
        let ghost rest = formats@.subrange(i as int, formats@.len() as int);
        assert(rest.drop_first() =~= formats@.subrange(i + 1, formats@.len() as int));
        let r = parse_naive_datetime(time, formats[i]);
        if r.is_some() {
            return r;
        }
        i = i + 1;
    }
    None
}

/// The two capture-time layouts, dashed first.
pub open spec fn capture_layouts() -> Seq<&'static str> {
    seq![CAPTURE_LAYOUT_DASHED, CAPTURE_LAYOUT_COLONS]
}

/// A capture-time property, read under either layout.
pub open spec fn capture_time(tag: Option<String>) -> Option<LocalDateTime> {
    match tag {
        Some(s) => parse_first(s@, capture_layouts()),
        None => None,
    }
}

/// The GPS date property, read as a date.
pub open spec fn gps_date(tag: Option<String>) -> Option<LocalDateTime> {
    match tag {
        Some(s) => naive_date_parse(s@, GPS_DATE_LAYOUT@),
        None => None,
    }
}

/// A container date property, read as RFC 3339.
pub open spec fn container_date(tag: Option<String>) -> Option<LocalDateTime> {
    match tag {
        Some(s) => rfc3339_parse(s@),
        None => None,
    }
}

/// The timestamp that the file's own properties give, in order of trust:
/// capture time, original capture time (High), GPS date (Middle), then the
/// container's creation and modification dates (Low).
pub open spec fn meta_datetime(tags: ImageTags) -> Option<(LocalDateTime, InfoValidScore)> {
    if capture_time(tags.date_time) is Some {
        Some((capture_time(tags.date_time)->0, InfoValidScore::High))
    } else if capture_time(tags.date_time_original) is Some {
        Some((capture_time(tags.date_time_original)->0, InfoValidScore::High))
    } else if gps_date(tags.gps_date_stamp) is Some {
        Some((gps_date(tags.gps_date_stamp)->0, InfoValidScore::Middle))
    } else if container_date(tags.date_create) is Some {
        Some((container_date(tags.date_create)->0, InfoValidScore::Low))
    } else if container_date(tags.date_modify) is Some {
        Some((container_date(tags.date_modify)->0, InfoValidScore::Low))
    } else {
        None
    }
}

/// Reads a capture-time property under both layouts.
fn read_capture_time(tag: &Option<String>) -> (r: Option<LocalDateTime>)
    ensures
        r == capture_time(*tag),
        r matches Some(t) ==> t.wf(),
{
    match tag {
        Some(s) => {
            let layouts: Vec<&str> = vec![CAPTURE_LAYOUT_DASHED, CAPTURE_LAYOUT_COLONS];
            assert(layouts@ == capture_layouts());
            parse_in_multi_formats(s.as_str(), &layouts)
        },
        None => None,
    }
}

/// Reads a container date property.
fn read_container_date(tag: &Option<String>) -> (r: Option<LocalDateTime>)
    ensures
        r == container_date(*tag),
        r matches Some(t) ==> t.wf(),
{
    match tag {
        Some(s) => parse_rfc3339(s.as_str()),
        None => None,
    }
}

/// The timestamp that the file's own properties give, with its confidence.
pub fn retrieve_meta_datetime(tags: &ImageTags) -> (r: Option<(LocalDateTime, InfoValidScore)>)
    ensures
        r == meta_datetime(*tags),
        r matches Some((t, _)) ==> t.wf(),
{
    let t = read_capture_time(&tags.date_time);
    if let Some(t) = t {
        return Some((t, InfoValidScore::High));
    }
    let t = read_capture_time(&tags.date_time_original);
    if let Some(t) = t {
        return Some((t, InfoValidScore::High));
    }
    let t = match &tags.gps_date_stamp {
        Some(s) => parse_naive_date(s.as_str(), GPS_DATE_LAYOUT),
        None => None,
    };
    if let Some(t) = t {
        return Some((t, InfoValidScore::Middle));
    }
    let t = read_container_date(&tags.date_create);
    if let Some(t) = t {
        return Some((t, InfoValidScore::Low));
    }
    let t = read_container_date(&tags.date_modify);
    if let Some(t) = t {
        return Some((t, InfoValidScore::Low));
    }
    None
}

/// How the file's own timestamp and its name's date combine: a High or
/// Middle timestamp stands; against a Low one the name's date wins at
/// Middle; a Low one stands alone; the name's date alone drops to Low.
pub open spec fn combined(
    meta: Option<(LocalDateTime, InfoValidScore)>,
    name: Option<(LocalDateTime, InfoValidScore)>,
) -> Option<(LocalDateTime, InfoValidScore)> {
    match meta {
        Some((t, InfoValidScore::Low)) => match name {
            Some((n, _)) => Some((n, InfoValidScore::Middle)),
            None => Some((t, InfoValidScore::Low)),
        },
        Some((t, s)) => Some((t, s)),
        None => match name {
            Some((n, _)) => Some((n, InfoValidScore::Low)),
            None => None,
        },
    }
}

/// Chooses between the file's own timestamp and its name's date.
pub fn combine_sources(
    meta: Option<(LocalDateTime, InfoValidScore)>,
    name: Option<(LocalDateTime, InfoValidScore)>,
) -> (r: Option<(LocalDateTime, InfoValidScore)>)
    ensures
        r == combined(meta, name),
{
    match meta {
        Some((t, InfoValidScore::Low)) => match name {
            Some((n, _)) => Some((n, InfoValidScore::Middle)),
            None => Some((t, InfoValidScore::Low)),
        },
        Some((t, s)) => Some((t, s)),
        None => match name {
            Some((n, _)) => Some((n, InfoValidScore::Low)),
            None => None,
        },
    }
}

/// What resolving a file yields, given the timestamp chosen for it and its
/// fingerprint: a missing fingerprint fails, whatever the timestamp; with a
/// fingerprint, a missing timestamp fails.
pub open spec fn resolution(
    chosen: Option<(LocalDateTime, InfoValidScore)>,
    signature: Option<String>,
) -> Result<ImgMeta, ResolutionError> {
    match signature {
        None => Err(ResolutionError::NoSignature),
        Some(sig) => match chosen {
            None => Err(ResolutionError::NoTimestamp),
            Some((t, s)) => Ok(ImgMeta { sig: Some(sig), time: Some(t), score: Some(s) }),
        },
    }
}

/// Resolves the file at `path` from its properties: its timestamp, the
/// confidence in it, and its fingerprint.
pub fn retrive_img_datetime(tags: ImageTags, path: &str) -> (r: Result<ImgMeta, ResolutionError>)
    ensures
        r == resolution(combined(meta_datetime(tags), filename_date(path@)), tags.signature),
        r matches Ok(m) ==> m.time matches Some(t) && t.wf(),
{
    let name = retrieve_filename_datetime(path);
    let meta = retrieve_meta_datetime(&tags);
    let chosen = combine_sources(meta, name);
    match tags.signature {
        None => Err(ResolutionError::NoSignature),
        Some(sig) => match chosen {
            None => Err(ResolutionError::NoTimestamp),
            Some((t, s)) => Ok(ImgMeta { sig: Some(sig), time: Some(t), score: Some(s) }),
        },
    }
}

/// A capture time that parses decides the result at High confidence,
/// whatever the file's name and its other properties say.
pub proof fn lemma_capture_time_wins(tags: ImageTags, path: Seq<char>, t: LocalDateTime)
    requires
        capture_time(tags.date_time) == Some(t),
        tags.signature is Some,
    ensures
        resolution(combined(meta_datetime(tags), filename_date(path)), tags.signature)
            == Ok::<ImgMeta, ResolutionError>(ImgMeta { sig: tags.signature, time: Some(t), score: Some(InfoValidScore::High) }),
{
}

/// With no capture time, no GPS date and no date in the name, a parsable
/// container creation date decides the result at Low confidence.
pub proof fn lemma_container_date_alone(tags: ImageTags, path: Seq<char>, t: LocalDateTime)
    requires
        capture_time(tags.date_time) is None,
        capture_time(tags.date_time_original) is None,
        gps_date(tags.gps_date_stamp) is None,
        container_date(tags.date_create) == Some(t),
        filename_date(path) is None,
        tags.signature is Some,
    ensures
        resolution(combined(meta_datetime(tags), filename_date(path)), tags.signature)
            == Ok::<ImgMeta, ResolutionError>(ImgMeta { sig: tags.signature, time: Some(t), score: Some(InfoValidScore::Low) }),
{
}

/// Where the file's own properties give only a container date, a date in
/// the name is preferred to it, at Middle confidence.
pub proof fn lemma_name_beats_container(tags: ImageTags, path: Seq<char>, n: LocalDateTime)
    requires
        meta_datetime(tags) matches Some((_, InfoValidScore::Low)),
        filename_date(path) == Some((n, InfoValidScore::Middle)),
        tags.signature is Some,
    ensures
        resolution(combined(meta_datetime(tags), filename_date(path)), tags.signature)
            == Ok::<ImgMeta, ResolutionError>(ImgMeta { sig: tags.signature, time: Some(n), score: Some(InfoValidScore::Middle) }),
{
}

} // verus!
