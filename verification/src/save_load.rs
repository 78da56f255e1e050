//! Save files: how they are numbered, and how their metadata is framed apart
//! from the saved world.
//!
//! A save file holds the game's metadata, then a separator line, then the
//! saved world. Files are named `{campaign}.apocalyptosis.save`.
use vstd::prelude::*;

verus! {

/// The bytes between a save file's metadata and its world: `"\n\nAPOCALYPTOSIS\n"`.
pub open spec fn separator() -> Seq<u8> {
    seq![10u8, 10, 65, 80, 79, 67, 65, 76, 89, 80, 84, 79, 83, 73, 83, 10]
}

/// The separator, as bytes.
pub fn separator_bytes() -> (r: Vec<u8>)
    ensures
        r@ == separator(),
{
    let r: Vec<u8> = vec![10u8, 10, 65, 80, 79, 67, 65, 76, 89, 80, 84, 79, 83, 73, 83, 10];
    assert(r@ =~= separator());
    r
}

/// The separator starts at position `p` of `bytes`.
pub open spec fn separator_at(bytes: Seq<u8>, p: int) -> bool {
    0 <= p && p + separator().len() <= bytes.len() && bytes.subrange(
        p,
        p + separator().len(),
    ) == separator()
}

/// Whether the separator starts at position `p` of `bytes`.
fn matches_separator_at(bytes: &Vec<u8>, sep: &Vec<u8>, p: usize) -> (r: bool)
    requires
        sep@ == separator(),
    ensures
        r == separator_at(bytes@, p as int),
{
    if p > bytes.len() || bytes.len() - p < sep.len() {
        return false;
    }
    let mut k: usize = 0;
    while k < sep.len()
        invariant
            sep@ == separator(),
            p + sep.len() <= bytes.len(),
            k <= sep.len(),
            forall|j: int| 0 <= j < k ==> bytes@[p + j] == sep@[j],
        decreases sep.len() - k,
    {
        if bytes[p + k] != sep[k] {
            assert(bytes@.subrange(p as int, p + sep.len())[k as int] != separator()[k as int]);
            return false;
        }
        k += 1;
    }
    assert(bytes@.subrange(p as int, p + sep.len()) =~= separator());
    true
}

/// The position of the first separator in `bytes`, if there is one.
pub fn find_separator(bytes: &Vec<u8>) -> (r: Option<usize>)
    ensures
        r matches Some(p) ==> separator_at(bytes@, p as int) && forall|q: int|
            0 <= q < p ==> !separator_at(bytes@, q),
        r is None ==> forall|q: int| !separator_at(bytes@, q),
{
    let sep = separator_bytes();
    let mut p: usize = 0;
    while p <= bytes.len() && bytes.len() - p >= sep.len()
        invariant
            sep@ == separator(),
            p <= bytes.len(),
            forall|q: int| 0 <= q < p ==> !separator_at(bytes@, q),
        decreases bytes.len() - p,
    {
        if matches_separator_at(bytes, &sep, p) {
            return Some(p);
        }
        p += 1;
    }
    None
}

/// The bytes of `bytes` from `from` up to `to`.
fn copy_range(bytes: &Vec<u8>, from: usize, to: usize) -> (r: Vec<u8>)
    requires
        from <= to <= bytes.len(),
    ensures
        r@ == bytes@.subrange(from as int, to as int),
{
    let mut r: Vec<u8> = Vec::new();
    let mut i: usize = from;
    while i < to
        invariant
            from <= i <= to <= bytes.len(),
            r@ == bytes@.subrange(from as int, i as int),
        decreases to - i,
    {
        r.push(bytes[i]);
        i += 1;
        assert(r@ =~= bytes@.subrange(from as int, i as int));
    }
    r
}

/// Splits the contents of a save file into its metadata and its world, at the
/// first separator; `None` if the file has no separator.
pub fn split_save_file(bytes: &Vec<u8>) -> (r: Option<(Vec<u8>, Vec<u8>)>)
    ensures
        r is None <==> forall|q: int| !separator_at(bytes@, q),
        r matches Some((metadata, content)) ==> exists|p: int|
            separator_at(bytes@, p) && (forall|q: int| 0 <= q < p ==> !separator_at(bytes@, q))
                && metadata@ == bytes@.take(p) && content@ == bytes@.skip(p + separator().len()),
{
    match find_separator(bytes) {
        None => None,
        Some(p) => {
            assert(separator().len() == 16);
            assert(p + 16 <= bytes.len());
            let metadata = copy_range(bytes, 0, p);
            let content = copy_range(bytes, p + 16, bytes.len());
            assert(metadata@ =~= bytes@.take(p as int));
            assert(content@ =~= bytes@.skip(p + separator().len()));
            Some((metadata, content))
        },
    }
}

/// The start of a save file: the metadata followed by the separator; the
/// saved world follows.
pub fn save_header(metadata: &Vec<u8>) -> (r: Vec<u8>)
    ensures
        r@ == metadata@ + separator(),
{
    let mut r = copy_range(metadata, 0, metadata.len());
    let sep = separator_bytes();
    let mut k: usize = 0;
    while k < sep.len()
        invariant
            sep@ == separator(),
            k <= sep.len(),
            r@ == metadata@ + sep@.take(k as int),
        decreases sep.len() - k,
    {
        r.push(sep[k]);
        k += 1;
        assert(r@ =~= metadata@ + sep@.take(k as int));
    }
    assert(sep@.take(sep.len() as int) =~= sep@);
    assert(metadata@.subrange(0, metadata.len() as int) =~= metadata@);
    r
}

/// A saved file splits back into the metadata and the world that were
/// written, as long as no separator starts inside the metadata (counting one
/// that would run on into the separator written after it).
pub proof fn lemma_save_file_splits_back(metadata: Seq<u8>, world: Seq<u8>)
    requires
        forall|q: int| 0 <= q < metadata.len() ==> !separator_at(metadata + separator(), q),
    ensures
        ({
            let file = metadata + separator() + world;
            &&& separator_at(file, metadata.len() as int)
            &&& forall|q: int| 0 <= q < metadata.len() ==> !separator_at(file, q)
            &&& file.take(metadata.len() as int) == metadata
            &&& file.skip((metadata.len() + separator().len()) as int) == world
        }),
{
    let sep = separator();
    let head = metadata + sep;
    let file = head + world;
    let m = metadata.len() as int;
    let n = sep.len() as int;
    assert(file.subrange(m, m + n) =~= sep) by {
        assert forall|j: int| 0 <= j < n implies #[trigger] file.subrange(m, m + n)[j] == sep[j] by {
            assert(file[m + j] == head[m + j]);
        }
    }
    assert forall|q: int| 0 <= q < m implies !separator_at(file, q) by {
        assert(!separator_at(head, q));
        assert(file.subrange(q, q + n) =~= head.subrange(q, q + n)) by {
            assert forall|j: int| 0 <= j < n implies #[trigger] file.subrange(q, q + n)[j]
                == head.subrange(q, q + n)[j] by {
                assert(file[q + j] == head[q + j]);
            }
        }
    }
    assert(file.take(m) =~= metadata);
    assert(file.skip(m + n) =~= world);
}

/// Whether a character is a decimal digit.
pub open spec fn is_digit(c: char) -> bool {
    '0' <= c && c <= '9'
}

/// The number that a string of decimal digits writes.
pub open spec fn digits_value(s: Seq<char>) -> int
    decreases s.len(),
{
    if s.len() == 0 {
        0
    } else {
        digits_value(s.drop_last()) * 10 + (s.last() as int - '0' as int)
    }
}

/// Every character is a decimal digit.
pub open spec fn all_digits(d: Seq<char>) -> bool {
    forall|i: int| 0 <= i < d.len() ==> is_digit(#[trigger] d[i])
}

/// The value of one or more decimal digits, if it fits in a `usize`.
pub open spec fn parse_digits_spec(d: Seq<char>) -> Option<usize> {
    if d.len() > 0 && all_digits(d) && digits_value(d) <= usize::MAX {
        Some(digits_value(d) as usize)
    } else {
        None
    }
}

/// What `str::parse::<usize>` makes of a string: an optional `+`, then one or
/// more decimal digits whose value fits in a `usize`.
pub open spec fn parse_usize(s: Seq<char>) -> Option<usize> {
    if s.len() > 0 && s[0] == '+' {
        parse_digits_spec(s.drop_first())
    } else {
        parse_digits_spec(s)
    }
}

/// The part of a file name before its first `.` or `-`.
pub open spec fn leading_part(name: Seq<char>) -> Seq<char>
    decreases name.len(),
{
    if name.len() == 0 || name[0] == '.' || name[0] == '-' {
        Seq::empty()
    } else {
        seq![name[0]] + leading_part(name.drop_first())
    }
}


/// Writing one more digit after a number multiplies it by ten and adds the
/// digit; no digits write 0.
pub proof fn lemma_digits_value_push(d: Seq<char>, c: char)
    ensures
        digits_value(Seq::<char>::empty()) == 0,
        digits_value(d.push(c)) == digits_value(d) * 10 + (c as int - '0' as int),
{
    assert(d.push(c).drop_last() =~= d);
}

/// A parsed number is written with decimal digits only, after at most one
/// leading `+`, and with at least one digit.
pub proof fn lemma_parse_usize_form(s: Seq<char>)
    ensures
        parse_usize(s) is Some ==> ({
            let d = if s[0] == '+' {
                s.drop_first()
            } else {
                s
            };
            &&& d.len() > 0
            &&& forall|i: int| 0 <= i < d.len() ==> '0' <= #[trigger] d[i] <= '9'
            &&& parse_usize(s) == Some(digits_value(d) as usize)
            &&& digits_value(d) <= usize::MAX
        }),
{
}

/// `leading_part` is the prefix up to the first `.` or `-`.
proof fn lemma_leading_part(name: Seq<char>, k: int)
    requires
        0 <= k <= name.len(),
        forall|j: int| 0 <= j < k ==> name[j] != '.' && name[j] != '-',
        k == name.len() || name[k] == '.' || name[k] == '-',
    ensures
        leading_part(name) == name.take(k),
    decreases k,
{
    if k > 0 {
        lemma_leading_part(name.drop_first(), k - 1);
        assert(name.take(k) =~= seq![name[0]] + name.drop_first().take(k - 1));
    } else {
        assert(name.take(0) =~= Seq::<char>::empty());
    }
}

/// A longer string of digits writes a number at least as large.
proof fn lemma_digits_value_grows(d: Seq<char>, k: int)
    requires
        0 <= k <= d.len(),
        forall|i: int| 0 <= i < d.len() ==> is_digit(#[trigger] d[i]),
    ensures
        digits_value(d.take(k)) <= digits_value(d),
        digits_value(d.take(k)) >= 0,
    decreases d.len() - k,
{
    if k < d.len() {
        lemma_digits_value_grows(d, k + 1);
        assert(d.take(k + 1).drop_last() =~= d.take(k));
        assert(is_digit(d[k]));
    } else {
        assert(d.take(k) =~= d);
        lemma_digits_value_nonneg(d);
    }
}

/// A string of digits writes a non-negative number.
proof fn lemma_digits_value_nonneg(d: Seq<char>)
    requires
        forall|i: int| 0 <= i < d.len() ==> is_digit(#[trigger] d[i]),
    ensures
        digits_value(d) >= 0,
    decreases d.len(),
{
    if d.len() > 0 {
        lemma_digits_value_nonneg(d.drop_last());
        assert(is_digit(d[d.len() - 1]));
    }
}

/// Parses the decimal digits of `s` from `start` up to `end`, with no sign.
fn parse_digits(s: &str, start: usize, end: usize) -> (r: Option<usize>)
    requires
        start <= end <= s@.len(),
    ensures
        r == parse_digits_spec(s@.subrange(start as int, end as int)),
{
    let ghost d = s@.subrange(start as int, end as int);
    if start == end {
        return None;
    }
    let mut i: usize = start;
    while i < end
        invariant
            start <= i <= end <= s@.len(),
            d == s@.subrange(start as int, end as int),
            forall|j: int| 0 <= j < i - start ==> is_digit(#[trigger] d[j]),
        decreases end - i,
    {
        let c = s.get_char(i);
        if !('0' <= c && c <= '9') {
            assert(!is_digit(d[i - start]));
            return None;
        }
        i += 1;
    }
    let mut value: usize = 0;
    let mut i: usize = start;
    while i < end
        invariant
            start <= i <= end <= s@.len(),
            d == s@.subrange(start as int, end as int),
            forall|j: int| 0 <= j < d.len() ==> is_digit(#[trigger] d[j]),
            value == digits_value(d.take(i - start)),
        decreases end - i,
    {
        let c = s.get_char(i);
        assert(is_digit(d[i - start]));
        let digit: usize = (c as u32 - '0' as u32) as usize;
        assert(d.take(i - start + 1).drop_last() =~= d.take(i - start));
        match value.checked_mul(10) {
            None => {
                proof {
                    lemma_digits_value_grows(d, i - start + 1);
                }
                return None;
            },
            Some(v) => match v.checked_add(digit) {
                None => {
                    proof {
                        lemma_digits_value_grows(d, i - start + 1);
                    }
                    return None;
                },
                Some(w) => {
                    value = w;
                },
            },
        }
        i += 1;
    }
    assert(d.take(d.len() as int) =~= d);
    Some(value)
}

/// The campaign number at the start of a save file name, if it has one.
pub fn leading_index(file_name: &str) -> (r: Option<usize>)
    ensures
        r == parse_usize(leading_part(file_name@)),
        exists|k: int|
            0 <= k <= file_name@.len() && (forall|j: int|
                0 <= j < k ==> file_name@[j] != '.' && file_name@[j] != '-') && (k
                == file_name@.len() || file_name@[k] == '.' || file_name@[k] == '-') && r
                == parse_usize(#[trigger] file_name@.take(k)),
{
    let n = file_name.unicode_len();
    let mut k: usize = 0;
    loop
        invariant
            k <= n == file_name@.len(),
            forall|j: int| 0 <= j < k ==> file_name@[j] != '.' && file_name@[j] != '-',
        ensures
            k <= n == file_name@.len(),
            forall|j: int| 0 <= j < k ==> file_name@[j] != '.' && file_name@[j] != '-',
            k == n || file_name@[k as int] == '.' || file_name@[k as int] == '-',
        decreases n - k,
    {
        if k == n {
            break;
        }
        let c = file_name.get_char(k);
        if c == '.' || c == '-' {
            break;
        }
        k += 1;
    }
    proof {
        lemma_leading_part(file_name@, k as int);
    }
    let ghost lead = file_name@.take(k as int);
    if k > 0 && file_name.get_char(0) == '+' {
        let r = parse_digits(file_name, 1, k);
        assert(lead.drop_first() =~= file_name@.subrange(1, k as int));
        assert(lead[0] == '+');
        assert(parse_usize(lead) == r);
        r
    } else {
        let r = parse_digits(file_name, 0, k);
        assert(lead =~= file_name@.subrange(0, k as int));
        assert(!(lead.len() > 0 && lead[0] == '+'));
        assert(parse_usize(lead) == r);
        r
    }
}

/// The highest campaign number among the save file names, or 0.
pub open spec fn max_campaign_index(file_names: Seq<String>) -> int
    decreases file_names.len(),
{
    if file_names.len() == 0 {
        0
    } else {
        let m = max_campaign_index(file_names.drop_last());
        match parse_usize(leading_part(file_names.last()@)) {
            Some(v) => if v > m {
                v as int
            } else {
                m
            },
            None => m,
        }
    }
}


/// The highest campaign number is at least the number of every save file
/// name that has one, and it is 0 or the number of one of them.
pub proof fn lemma_max_campaign_index(file_names: Seq<String>)
    ensures
        forall|i: int|
            0 <= i < file_names.len() ==> (parse_usize(leading_part(#[trigger] file_names[i]@)) matches Some(v)
                ==> v <= max_campaign_index(file_names)),
        max_campaign_index(file_names) == 0 || exists|i: int|
            0 <= i < file_names.len() && parse_usize(leading_part(#[trigger] file_names[i]@))
                == Some(max_campaign_index(file_names) as usize),
        max_campaign_index(file_names) >= 0,
    decreases file_names.len(),
{
    if file_names.len() > 0 {
        let rest = file_names.drop_last();
        lemma_max_campaign_index(rest);
        assert forall|i: int| 0 <= i < rest.len() implies #[trigger] file_names[i] == rest[i] by {}
        let m = max_campaign_index(rest);
        if m != 0 {
            let j = choose|i: int|
                0 <= i < rest.len() && parse_usize(leading_part(#[trigger] rest[i]@)) == Some(
                    m as usize,
                );
            assert(file_names[j] == rest[j]);
        }
    }
}

/// The campaign number for a new game: one more than the highest number among
/// the existing save file names.
pub fn calc_new_campaign_index(file_names: &Vec<String>) -> (r: usize)
    requires
        max_campaign_index(file_names@) < usize::MAX,
    ensures
        r == max_campaign_index(file_names@) + 1,
        forall|i: int|
            0 <= i < file_names.len() ==> (parse_usize(leading_part(#[trigger] file_names@[i]@)) matches Some(v)
                ==> r > v),
        r == 1 || exists|i: int|
            0 <= i < file_names.len() && parse_usize(leading_part(#[trigger] file_names@[i]@))
                == Some((r - 1) as usize),
{
    proof {
        lemma_max_campaign_index(file_names@);
    }
    let mut max: usize = 0;
    let mut i: usize = 0;
    while i < file_names.len()
        invariant
            i <= file_names.len(),
            max == max_campaign_index(file_names@.take(i as int)),
            max_campaign_index(file_names@) < usize::MAX,
        decreases file_names.len() - i,
    {
        assert(file_names@.take(i as int + 1).drop_last() =~= file_names@.take(i as int));
        assert(file_names@.take(i as int + 1).last() == file_names@[i as int]);
        match leading_index(file_names[i].as_str()) {
            Some(index) => {
                if index > max {
                    max = index;
                }
            },
            None => {},
        }
        i += 1;
    }
    assert(file_names@.take(file_names.len() as int) =~= file_names@);
    max + 1
}

} // verus!
