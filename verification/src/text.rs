//! Localized texts: loading the message files, and the keys of messages.
use fluent::FluentResource;
use std::string::FromUtf8Error;
use vstd::prelude::*;

verus! {

/// The index of the first `.` in a key, if any.
pub open spec fn first_dot(key: Seq<char>) -> Option<int>
    decreases key.len(),
{
    if key.len() == 0 {
        None
    } else if key[0] == '.' {
        Some(0)
    } else {
        match first_dot(key.drop_first()) {
            Some(i) => Some(i + 1),
            None => None,
        }
    }
}

/// `first_dot` finds the first `.`, and only where there is one.
proof fn lemma_first_dot(key: Seq<char>, k: int)
    requires
        0 <= k <= key.len(),
        forall|j: int| 0 <= j < k ==> key[j] != '.',
        k < key.len() ==> key[k] == '.',
    ensures
        first_dot(key) == if k < key.len() {
            Some(k)
        } else {
            None::<int>
        },
    decreases k,
{
    if k > 0 {
        lemma_first_dot(key.drop_first(), k - 1);
    }
}

/// A message key names a message, or an attribute of a message as
/// `message.attribute`; the message name ends at the first `.`.
pub fn split_message_key(key: &str) -> (r: (&str, Option<&str>))
    ensures
        match first_dot(key@) {
            Some(i) => r.0@ == key@.take(i) && (r.1 matches Some(a) && a@ == key@.skip(i + 1)),
            None => r.0@ == key@ && r.1 is None,
        },
        forall|j: int| 0 <= j < r.0@.len() ==> r.0@[j] != '.',
        r.1 matches Some(a) ==> key@ == r.0@ + seq!['.'] + a@,
        r.1 is None ==> r.0@ == key@,
{
    let n = key.unicode_len();
    let mut k: usize = 0;
    loop
        invariant
            k <= n == key@.len(),
            forall|j: int| 0 <= j < k ==> key@[j] != '.',
        ensures
            k <= n == key@.len(),
            forall|j: int| 0 <= j < k ==> key@[j] != '.',
            k < n ==> key@[k as int] == '.',
        decreases n - k,
    {
        if k == n {
            break;
        }
        if key.get_char(k) == '.' {
            break;
        }
        k += 1;
    }
    proof {
        lemma_first_dot(key@, k as int);
    }
    if k < n {
        let message = key.substring_char(0, k);
        let attribute = key.substring_char(k + 1, n);
        assert(message@ =~= key@.take(k as int));
        assert(attribute@ =~= key@.skip(k + 1));
        assert(key@ =~= message@ + seq!['.'] + attribute@);
        (message, Some(attribute))
    } else {
        (key, None)
    }
}


/// A parsed message file of `fluent`.
#[verifier::external_type_specification]
#[verifier::external_body]
pub struct ExFluentResource(FluentResource);

/// The UTF-8 decoding error of `String::from_utf8`.
#[verifier::external_type_specification]
#[verifier::external_body]
pub struct ExFromUtf8Error(FromUtf8Error);

/// The syntax errors that `FluentResource::try_new` reports for a source: the
/// byte offset at which each starts and its description, in the order given.
pub uninterp spec fn fluent_syntax_errors(source: Seq<char>) -> Seq<(usize, Seq<char>)>;

/// The source text that a message file resource was parsed from, which the
/// resource keeps and `FluentResource::source` gives back.
pub uninterp spec fn fluent_resource_source(r: FluentResource) -> Seq<char>;

/// `String::from_utf8`: the string that the bytes encode, or an error exactly
/// when they are not valid UTF-8.
#[verifier::external_body]
fn string_from_utf8(bytes: Vec<u8>) -> (r: Result<String, FromUtf8Error>)
    ensures
        r is Ok <==> vstd::utf8::valid_utf8(bytes@),
        r matches Ok(s) ==> s@ == vstd::utf8::decode_utf8(bytes@),
{
    String::from_utf8(bytes)
}

/// `FluentResource::try_new`: parses a message file. The resource is built
/// from the source and keeps it, with the entries that parsed; the syntax
/// errors come back with the byte offset at which each starts (`pos.start`)
/// and the text of its kind. The parsed entries themselves are not described.
#[verifier::external_body]
fn parse_fluent_source(source: &String) -> (r: (FluentResource, Vec<(usize, String)>))
    ensures
        fluent_resource_source(r.0) == source@,
        r.1@.map_values(|e: (usize, String)| (e.0, e.1@)) == fluent_syntax_errors(source@),
{
    match FluentResource::try_new(source.clone()) {
        Ok(resource) => (resource, Vec::new()),
        Err((resource, errs)) => {
            let mut errors = Vec::new();
            for e in errs {
                errors.push((e.pos.start, format!("{}", e.kind)));
            }
            (resource, errors)
        },
    }
}

/// The number of newlines among the first `offset` bytes.
pub open spec fn newlines_before(bytes: Seq<u8>, offset: int) -> nat
    decreases offset,
{
    if offset <= 0 {
        0
    } else {
        newlines_before(bytes, offset - 1) + if bytes[offset - 1] == 10u8 {
            1nat
        } else {
            0nat
        }
    }
}

/// Where the line holding byte `offset` starts: just after the last newline
/// before it, or at 0.
pub open spec fn line_start(bytes: Seq<u8>, offset: int) -> int
    decreases offset,
{
    if offset <= 0 {
        0
    } else if bytes[offset - 1] == 10u8 {
        offset
    } else {
        line_start(bytes, offset - 1)
    }
}

/// The line and the column of a byte offset, both counted from 0 (the
/// column in bytes), lines ending at each newline.
pub open spec fn line_column_spec(bytes: Seq<u8>, offset: int) -> (int, int) {
    (newlines_before(bytes, offset) as int, offset - line_start(bytes, offset))
}

/// The line and column of byte `offset` of a text.
pub fn line_column(bytes: &[u8], offset: usize) -> (r: (usize, usize))
    requires
        offset <= bytes@.len(),
    ensures
        r.0 == line_column_spec(bytes@, offset as int).0,
        r.1 == line_column_spec(bytes@, offset as int).1,
{
    let mut line: usize = 0;
    let mut start: usize = 0;
    let mut k: usize = 0;
    while k < offset
        invariant
            k <= offset <= bytes@.len(),
            line == newlines_before(bytes@, k as int),
            start == line_start(bytes@, k as int),
            start <= k,
            line <= k,
        decreases offset - k,
    {
        if bytes[k] == 10u8 {
            line = line + 1;
            start = k + 1;
        }
        k += 1;
    }
    (line, offset - start)
}

/// A syntax error in a message file: the byte offset at which it starts, its
/// line and column (both from 0) where the offset lies within the file, and
/// its description.
#[derive(Debug, Clone, PartialEq, Eq)]
pub struct FluentSyntaxError {
    pub offset: usize,
    pub position: Option<(usize, usize)>,
    pub message: String,
}

/// A loaded message file: the resource, with the entries that parsed, and the
/// syntax errors found.
pub struct LoadedFluentResource {
    pub resource: FluentResource,
    pub errors: Vec<FluentSyntaxError>,
}

/// Why a message file could not be loaded.
pub enum FluentResourceLoadError {
    InvalidUtf8(FromUtf8Error),
}

/// Loads a message file from its bytes. Bytes that are not UTF-8 are refused;
/// otherwise the file is parsed, keeping the entries that parse, and each
/// syntax error is reported, in order, with its line and column.
pub fn load_fluent_resource(bytes: Vec<u8>) -> (r: Result<
    LoadedFluentResource,
    FluentResourceLoadError,
>)
    ensures
        r is Err <==> !vstd::utf8::valid_utf8(bytes@),
        r matches Ok(loaded) ==> fluent_resource_source(loaded.resource) == vstd::utf8::decode_utf8(
            bytes@,
        ),
        r matches Ok(loaded) ==> ({
            let errs = fluent_syntax_errors(vstd::utf8::decode_utf8(bytes@));
            &&& loaded.errors.len() == errs.len()
            &&& forall|i: int|
                0 <= i < errs.len() ==> {
                    let e = #[trigger] loaded.errors@[i];
                    &&& e.offset == errs[i].0
                    &&& e.message@ == errs[i].1
                    &&& e.position == if errs[i].0 <= bytes@.len() {
                        let (l, c) = line_column_spec(bytes@, errs[i].0 as int);
                        Some((l as usize, c as usize))
                    } else {
                        None::<(usize, usize)>
                    }
                }
        }),
{
    let ghost input = bytes@;
    let source = match string_from_utf8(bytes) {
        Ok(s) => s,
        Err(e) => return Err(FluentResourceLoadError::InvalidUtf8(e)),
    };
    let (resource, parsed) = parse_fluent_source(&source);
    let text = source.as_str().as_bytes();
    proof {
        vstd::utf8::decode_utf8_encode_utf8(input);
        assert(text@ == input);
    }
    let ghost errs = fluent_syntax_errors(source@);
    assert(parsed@.map_values(|e: (usize, String)| (e.0, e.1@)) == errs);
    let mut errors: Vec<FluentSyntaxError> = Vec::new();
    let mut i: usize = 0;
    while i < parsed.len()
        invariant
            i <= parsed.len(),
            text@ == input,
            parsed@.map_values(|e: (usize, String)| (e.0, e.1@)) == errs,
            errors.len() == i,
            forall|j: int|
                0 <= j < i ==> {
                    let e = #[trigger] errors@[j];
                    &&& e.offset == errs[j].0
                    &&& e.message@ == errs[j].1
                    &&& e.position == if errs[j].0 <= input.len() {
                        let (l, c) = line_column_spec(input, errs[j].0 as int);
                        Some((l as usize, c as usize))
                    } else {
                        None::<(usize, usize)>
                    }
                },
        decreases parsed.len() - i,
    {
        assert(errs[i as int] == (parsed@[i as int].0, parsed@[i as int].1@));
        let offset = parsed[i].0;
        let position = if offset <= text.len() {
            Some(line_column(text, offset))
        } else {
            None
        };
        errors.push(FluentSyntaxError { offset, position, message: parsed[i].1.clone() });
        i += 1;
    }
    Ok(LoadedFluentResource { resource, errors })
}

} // verus!
