//! Configuration documents.
//!
//! A document is a plain tree. It comes out of JSON5 text or out of a
//! `serde_json` value; the readers below take it apart with the diagnostics that
//! the model configurations share.

use vstd::prelude::*;

use crate::double::Double;
use crate::text::{around_text, same_text, with_text};

verus! {

/// A number of a document: its value as an unsigned integer where it was written as
/// one, and its value in double precision.
#[derive(Debug, Clone, Copy, PartialEq, Eq, Structural)]
pub struct Number {
    pub unsigned: Option<u64>,
    pub value: Double,
}

/// A document.
#[derive(Debug, PartialEq, Eq)]
pub enum Json {
    Null,
    Bool(bool),
    Number(Number),
    Text(String),
    List(Vec<Json>),
    Object(Vec<(String, Json)>),
}

/// The value type of `serde_json`.
#[verifier::external_type_specification]
#[verifier::external_body]
pub struct ExValue(serde_json::Value);

/// The error type of `json5`.
#[verifier::external_type_specification]
#[verifier::external_body]
pub struct ExJson5Error(json5::Error);

/// The document that a `serde_json` value holds.
pub uninterp spec fn value_document(value: serde_json::Value) -> Json;

/// The document that a JSON5 text stands for. Of a text that is not JSON5 it says nothing.
pub uninterp spec fn json5_document(source: Seq<char>) -> Json;

/// Takes a `serde_json::Value` apart, variant by variant. A number is read with
/// `as_u64` and `as_f64`; without the feature `arbitrary_precision` the latter always
/// answers. The result is a function of the value, named by `value_document`.
#[verifier::external_body]
fn import(value: serde_json::Value) -> (document: Json)
    ensures
        document == value_document(value),
{
    match value {
        serde_json::Value::Null => Json::Null,
        serde_json::Value::Bool(flag) => Json::Bool(flag),
        serde_json::Value::Number(n) => Json::Number(
            Number { unsigned: n.as_u64(), value: Double { bits: n.as_f64().map_or(0, |x| x.to_bits()) } },
        ),
        serde_json::Value::String(text) => Json::Text(text),
        serde_json::Value::Array(items) => Json::List(items.into_iter().map(import).collect()),
        serde_json::Value::Object(fields) => Json::Object(
            fields.into_iter().map(|field| (field.0, import(field.1))).collect(),
        ),
    }
}

/// `json5::from_str` into a `serde_json::Value`. What an accepted text holds is a
/// function of the text, named by `json5_document`. Of an error nothing is said: neither
/// its message nor that the text is at fault, since the parser also gives up on nested
/// text when little is left of the thread's stack, or at a limit set for the process.
#[verifier::external_body]
fn json5_value(source: &str) -> (out: Result<serde_json::Value, json5::Error>)
    ensures
        match out {
            Ok(value) => value_document(value) == json5_document(source@),
            Err(_) => true,
        },
{
    json5::from_str(source)
}

/// The first of the fields that has the given name.
pub open spec fn lookup(fields: Seq<(String, Json)>, key: Seq<char>) -> Option<Json>
    decreases fields.len(),
{
    if fields.len() == 0 {
        None
    } else if fields[0].0@ == key {
        Some(fields[0].1)
    } else {
        lookup(fields.drop_first(), key)
    }
}

impl Json {
    /// The field of an object; nothing is a field of anything else.
    pub open spec fn field(self, key: Seq<char>) -> Option<Json> {
        match self {
            Json::Object(fields) => lookup(fields@, key),
            _ => None,
        }
    }

    pub open spec fn text_value(self) -> Option<Seq<char>> {
        match self {
            Json::Text(text) => Some(text@),
            _ => None,
        }
    }

    pub open spec fn bool_value(self) -> Option<bool> {
        match self {
            Json::Bool(flag) => Some(flag),
            _ => None,
        }
    }

    pub open spec fn unsigned_value(self) -> Option<u64> {
        match self {
            Json::Number(number) => number.unsigned,
            _ => None,
        }
    }

    pub open spec fn size_value(self) -> Option<usize> {
        match self.unsigned_value() {
            Some(value) => if value <= usize::MAX {
                Some(value as usize)
            } else {
                None
            },
            None => None,
        }
    }

    pub open spec fn double_value(self) -> Option<Double> {
        match self {
            Json::Number(number) => Some(number.value),
            _ => None,
        }
    }

    /// The text in a field.
    pub open spec fn text_in(self, key: Seq<char>) -> Option<Seq<char>> {
        match self.field(key) {
            Some(value) => value.text_value(),
            None => None,
        }
    }

    /// The unsigned integer in a field.
    pub open spec fn unsigned_in(self, key: Seq<char>) -> Option<u64> {
        match self.field(key) {
            Some(value) => value.unsigned_value(),
            None => None,
        }
    }

    /// Whether a field holds `true`.
    pub open spec fn flag_in(self, key: Seq<char>) -> bool {
        match self.field(key) {
            Some(value) => value.bool_value() == Some(true),
            None => false,
        }
    }

    /// The document that a `serde_json` value holds.
    pub fn from_value(value: serde_json::Value) -> (document: Json)
        ensures
            document == value_document(value),
    {
        import(value)
    }

    /// Reads a document written in JSON5. What is read is what the text stands for. A text
    /// can be refused for its nesting too, where the stack is short.
    pub fn parse(source: &str) -> (out: Result<Json, String>)
        ensures
            match out {
                Ok(document) => document == json5_document(source@),
                Err(_) => true,
            },
    {
        match json5_value(source) {
            Ok(value) => Ok(import(value)),
            Err(error) => Err(error.to_string()),
        }
    }

    pub fn get<'a>(&'a self, key: &str) -> (out: Option<&'a Json>)
        ensures
            match out {
                Some(value) => self.field(key@) == Some(*value),
                None => self.field(key@) is None,
            },
    {
        match self {
            Json::Object(fields) => {
                let mut i: usize = 0;
                assert(fields@.skip(0) =~= fields@);
                while i < fields.len()
                    invariant
                        i <= fields.len(),
                        *self == Json::Object(*fields),
                        lookup(fields@, key@) == lookup(fields@.skip(i as int), key@),
                    decreases fields.len() - i,
                {
                    proof {
                        assert(fields@.skip(i as int).drop_first() =~= fields@.skip(i + 1));
                    }
                    if same_text(fields[i].0.as_str(), key) {
                        return Some(&fields[i].1);
                    }
                    i = i + 1;
                }
                None
            },
            _ => None,
        }
    }

    pub fn as_str<'a>(&'a self) -> (out: Option<&'a str>)
        ensures
            match out {
                Some(text) => self.text_value() == Some(text@),
                None => self.text_value() is None,
            },
    {
        match self {
            Json::Text(text) => Some(text.as_str()),
            _ => None,
        }
    }

    pub fn as_bool(&self) -> (out: Option<bool>)
        ensures
            out == self.bool_value(),
    {
        match self {
            Json::Bool(flag) => Some(*flag),
            _ => None,
        }
    }

    pub fn as_u64(&self) -> (out: Option<u64>)
        ensures
            out == self.unsigned_value(),
    {
        match self {
            Json::Number(number) => number.unsigned,
            _ => None,
        }
    }

    pub fn as_usize(&self) -> (out: Option<usize>)
        ensures
            out == self.size_value(),
    {
        match self.as_u64() {
            Some(value) => if value <= usize::MAX as u64 {
                Some(value as usize)
            } else {
                None
            },
            None => None,
        }
    }

    pub fn as_double(&self) -> (out: Option<Double>)
        ensures
            out == self.double_value(),
    {
        match self {
            Json::Number(number) => Some(number.value),
            _ => None,
        }
    }

    pub fn as_array<'a>(&'a self) -> (out: Option<&'a Vec<Json>>)
        ensures
            match out {
                Some(items) => *self == Json::List(*items),
                None => !(*self is List),
            },
    {
        match self {
            Json::List(items) => Some(items),
            _ => None,
        }
    }

    pub fn is_object(&self) -> (out: bool)
        ensures
            out == (*self is Object),
    {
        match self {
            Json::Object(_) => true,
            _ => false,
        }
    }

    /// The text in a field.
    pub fn get_str<'a>(&'a self, key: &str) -> (out: Option<&'a str>)
        ensures
            match out {
                Some(text) => self.text_in(key@) == Some(text@),
                None => self.text_in(key@) is None,
            },
    {
        match self.get(key) {
            Some(value) => value.as_str(),
            None => None,
        }
    }

    /// The unsigned integer in a field.
    pub fn get_u64(&self, key: &str) -> (out: Option<u64>)
        ensures
            out == self.unsigned_in(key@),
    {
        match self.get(key) {
            Some(value) => value.as_u64(),
            None => None,
        }
    }

    /// Whether a field holds `true`.
    pub fn get_flag(&self, key: &str) -> (out: bool)
        ensures
            out == self.flag_in(key@),
    {
        match self.get(key) {
            Some(value) => match value.as_bool() {
                Some(flag) => flag,
                None => false,
            },
            None => false,
        }
    }
}

/// Whether a reader's outcome is the specified one: the same value, or an error with
/// the specified message.
pub open spec fn agrees<T>(out: Result<T, String>, expected: Result<T, Seq<char>>) -> bool {
    match out {
        Ok(value) => expected == Ok::<T, Seq<char>>(value),
        Err(message) => expected == Err::<T, Seq<char>>(message@),
    }
}

/// The message of a failure.
pub open spec fn fault_of<T>(outcome: Result<T, Seq<char>>) -> Option<Seq<char>> {
    match outcome {
        Ok(_) => None,
        Err(message) => Some(message),
    }
}

/// The first fault of two, in order.
pub open spec fn first(one: Option<Seq<char>>, other: Option<Seq<char>>) -> Option<Seq<char>> {
    match one {
        Some(message) => Some(message),
        None => other,
    }
}

/// A fault where a rule does not hold.
pub open spec fn unless(rule: bool, message: Seq<char>) -> Option<Seq<char>> {
    if rule {
        None
    } else {
        Some(message)
    }
}

/// The rule that a field is there, and holds what `read` finds in it.
pub open spec fn required<T>(
    root: Json,
    key: Seq<char>,
    kind: Seq<char>,
    read: spec_fn(Json) -> Option<T>,
) -> Result<T, Seq<char>> {
    match root.field(key) {
        None => Err("missing "@ + key),
        Some(value) => match read(value) {
            Some(found) => Ok(found),
            None => Err(key + " must be "@ + kind),
        },
    }
}

pub open spec fn object_of(root: Json, key: Seq<char>) -> Result<Json, Seq<char>> {
    required(root, key, "an object"@, |value: Json| if value is Object { Some(value) } else { None })
}

pub open spec fn string_of(root: Json, key: Seq<char>) -> Result<Seq<char>, Seq<char>> {
    required(root, key, "a string"@, |value: Json| value.text_value())
}

pub open spec fn bool_of(root: Json, key: Seq<char>) -> Result<bool, Seq<char>> {
    required(root, key, "a boolean"@, |value: Json| value.bool_value())
}

pub open spec fn usize_of(root: Json, key: Seq<char>) -> Result<usize, Seq<char>> {
    required(root, key, "an unsigned integer"@, |value: Json| value.size_value())
}

pub open spec fn number_of(root: Json, key: Seq<char>) -> Result<Double, Seq<char>> {
    required(root, key, "numeric"@, |value: Json| value.double_value())
}

/// The flag in a field that may be left out, but holds a boolean where it is there.
pub open spec fn optional_bool_of(root: Json, key: Seq<char>) -> Result<Option<bool>, Seq<char>> {
    match root.field(key) {
        None => Ok(None),
        Some(value) => match value.bool_value() {
            Some(flag) => Ok(Some(flag)),
            None => Err(key + " must be a boolean"@),
        },
    }
}

/// How many characters the text in a field has.
pub open spec fn character_count(characters: Json, field: Seq<char>) -> Result<nat, Seq<char>> {
    match characters.text_in(field) {
        Some(text) => Ok(text.len()),
        None => Err("characters."@ + field + " must be a string"@),
    }
}

/// The size of a published vocabulary: all characters of its five character lists.
pub open spec fn vocabulary_of(characters: Json) -> Result<nat, Seq<char>> {
    let pad = character_count(characters, "pad"@);
    let eos = character_count(characters, "eos"@);
    let bos = character_count(characters, "bos"@);
    let phonemes = character_count(characters, "phonemes"@);
    let punctuations = character_count(characters, "punctuations"@);
    let fault = first(
        fault_of(pad),
        first(
            fault_of(eos),
            first(fault_of(bos), first(fault_of(phonemes), fault_of(punctuations))),
        ),
    );
    match fault {
        Some(message) => Err(message),
        None => Ok(pad->Ok_0 + eos->Ok_0 + bos->Ok_0 + phonemes->Ok_0 + punctuations->Ok_0),
    }
}

/// A vocabulary size as a `usize`.
pub open spec fn size_of_vocabulary(size: Result<nat, Seq<char>>) -> Result<usize, Seq<char>> {
    match size {
        Ok(size) => if size <= usize::MAX {
            Ok(size as usize)
        } else {
            Err("model_args.num_chars does not fit usize"@)
        },
        Err(message) => Err(message),
    }
}

/// The number of characters of a checkpoint: as declared in `num_chars`, or else the size
/// of the vocabulary of the document.
pub open spec fn num_chars_of(
    args: Json,
    vocabulary: Result<usize, Seq<char>>,
) -> Result<usize, Seq<char>> {
    match args.unsigned_in("num_chars"@) {
        Some(value) => if value <= usize::MAX {
            Ok(value as usize)
        } else {
            Err("model_args.num_chars does not fit usize"@)
        },
        None => vocabulary,
    }
}

/// The vocabulary size of a document that must have a `characters` object.
pub open spec fn published_vocabulary_size_of(root: Json) -> Result<usize, Seq<char>> {
    match object_of(root, "characters"@) {
        Ok(characters) => size_of_vocabulary(vocabulary_of(characters)),
        Err(message) => Err(message),
    }
}

fn missing(key: &str) -> (out: String)
    ensures
        out@ == "missing "@ + key@,
{
    with_text("missing ", key)
}

fn wrong_kind(key: &str, kind: &str) -> (out: String)
    ensures
        out@ == key@ + " must be "@ + kind@,
{
    around_text(key, " must be ", kind)
}

pub fn object_at<'a>(root: &'a Json, key: &str) -> (out: Result<&'a Json, String>)
    ensures
        match out {
            Ok(value) => object_of(*root, key@) == Ok::<Json, Seq<char>>(*value) && *value is Object,
            Err(message) => object_of(*root, key@) == Err::<Json, Seq<char>>(message@),
        },
{
    match root.get(key) {
        None => Err(missing(key)),
        Some(value) => if value.is_object() {
            Ok(value)
        } else {
            Err(wrong_kind(key, "an object"))
        },
    }
}

pub fn string_at<'a>(root: &'a Json, key: &str) -> (out: Result<&'a str, String>)
    ensures
        match out {
            Ok(value) => string_of(*root, key@) == Ok::<Seq<char>, Seq<char>>(value@),
            Err(message) => string_of(*root, key@) == Err::<Seq<char>, Seq<char>>(message@),
        },
{
    match root.get(key) {
        None => Err(missing(key)),
        Some(value) => match value.as_str() {
            Some(text) => Ok(text),
            None => Err(wrong_kind(key, "a string")),
        },
    }
}

pub fn bool_at(root: &Json, key: &str) -> (out: Result<bool, String>)
    ensures
        agrees(out, bool_of(*root, key@)),
{
    match root.get(key) {
        None => Err(missing(key)),
        Some(value) => match value.as_bool() {
            Some(flag) => Ok(flag),
            None => Err(wrong_kind(key, "a boolean")),
        },
    }
}

pub fn usize_at(root: &Json, key: &str) -> (out: Result<usize, String>)
    ensures
        agrees(out, usize_of(*root, key@)),
{
    match root.get(key) {
        None => Err(missing(key)),
        Some(value) => match value.as_usize() {
            Some(size) => Ok(size),
            None => Err(wrong_kind(key, "an unsigned integer")),
        },
    }
}

pub fn number_at(root: &Json, key: &str) -> (out: Result<Double, String>)
    ensures
        agrees(out, number_of(*root, key@)),
{
    match root.get(key) {
        None => Err(missing(key)),
        Some(value) => match value.as_double() {
            Some(number) => Ok(number),
            None => Err(wrong_kind(key, "numeric")),
        },
    }
}

pub fn optional_bool_at(root: &Json, key: &str) -> (out: Result<Option<bool>, String>)
    ensures
        agrees(out, optional_bool_of(*root, key@)),
{
    match root.get(key) {
        None => Ok(None),
        Some(value) => match value.as_bool() {
            Some(flag) => Ok(Some(flag)),
            None => Err(with_text(key, " must be a boolean")),
        },
    }
}

fn count_characters(characters: &Json, field: &str) -> (out: Result<usize, String>)
    ensures
        match out {
            Ok(count) => character_count(*characters, field@) == Ok::<nat, Seq<char>>(count as nat),
            Err(message) => character_count(*characters, field@) == Err::<nat, Seq<char>>(message@),
        },
{
    match characters.get_str(field) {
        Some(text) => Ok(text.unicode_len()),
        None => Err(around_text("characters.", field, " must be a string")),
    }
}

/// The size of a published vocabulary.
pub fn vocabulary_size(characters: &Json) -> (out: Result<usize, String>)
    ensures
        agrees(out, size_of_vocabulary(vocabulary_of(*characters))),
{
    let pad: usize = count_characters(characters, "pad")?;
    let eos: usize = count_characters(characters, "eos")?;
    let bos: usize = count_characters(characters, "bos")?;
    let phonemes: usize = count_characters(characters, "phonemes")?;
    let punctuations: usize = count_characters(characters, "punctuations")?;
    let total: u128 = pad as u128 + eos as u128 + bos as u128 + phonemes as u128
        + punctuations as u128;
    if total <= usize::MAX as u128 {
        Ok(total as usize)
    } else {
        Err("model_args.num_chars does not fit usize".to_owned())
    }
}

/// The vocabulary size of a document that must have a `characters` object.
pub fn published_vocabulary_size(root: &Json) -> (out: Result<usize, String>)
    ensures
        agrees(out, published_vocabulary_size_of(*root)),
{
    let characters = object_at(root, "characters")?;
    vocabulary_size(characters)
}

/// The number of characters of a checkpoint.
pub fn num_chars_at(root: &Json, args: &Json) -> (out: Result<usize, String>)
    ensures
        agrees(out, num_chars_of(*args, published_vocabulary_size_of(*root))),
{
    match args.get_u64("num_chars") {
        Some(value) => if value <= usize::MAX as u64 {
            Ok(value as usize)
        } else {
            Err("model_args.num_chars does not fit usize".to_owned())
        },
        None => published_vocabulary_size(root),
    }
}

/// The field holds the size.
pub open spec fn says_size(root: Json, key: Seq<char>, size: usize) -> bool {
    root.field(key) matches Some(Json::Number(number)) && number.unsigned == Some(size as u64)
}

/// The field holds the number.
pub open spec fn says_number(root: Json, key: Seq<char>, value: Double) -> bool {
    root.field(key) matches Some(Json::Number(number)) && number.value == value
}

/// The field holds the flag.
pub open spec fn says_flag(root: Json, key: Seq<char>, flag: bool) -> bool {
    root.field(key) == Some(Json::Bool(flag))
}

/// The field holds the text.
pub open spec fn says_text(root: Json, key: Seq<char>, text: Seq<char>) -> bool {
    root.field(key) matches Some(Json::Text(found)) && found@ == text
}

/// The field holds the object.
pub open spec fn says_object(root: Json, key: Seq<char>, object: Json) -> bool {
    object is Object && root.field(key) == Some(object)
}

/// The document declares how many characters there are, or lists them in five texts.
pub open spec fn says_characters(root: Json, args: Json, count: usize) -> bool {
    if args.field("num_chars"@) matches Some(Json::Number(number)) && number.unsigned is Some {
        says_size(args, "num_chars"@, count)
    } else {
        exists|characters: Json, pad: Seq<char>, eos: Seq<char>, bos: Seq<char>, sounds: Seq<char>, marks: Seq<char>| {
            &&& #[trigger] says_object(root, "characters"@, characters)
            &&& #[trigger] says_text(characters, "pad"@, pad)
            &&& #[trigger] says_text(characters, "eos"@, eos)
            &&& #[trigger] says_text(characters, "bos"@, bos)
            &&& #[trigger] says_text(characters, "phonemes"@, sounds)
            &&& #[trigger] says_text(characters, "punctuations"@, marks)
            &&& count == pad.len() + eos.len() + bos.len() + sounds.len() + marks.len()
        }
    }
}

proof fn lookup_finds_first(fields: Seq<(String, Json)>, key: Seq<char>)
    ensures
        match lookup(fields, key) {
            Some(value) => exists|i: int|
                #![trigger fields[i]]
                0 <= i < fields.len() && fields[i].0@ == key && fields[i].1 == value && (
                forall|k: int| 0 <= k < i ==> (#[trigger] fields[k]).0@ != key),
            None => forall|k: int| 0 <= k < fields.len() ==> (#[trigger] fields[k]).0@ != key,
        },
    decreases fields.len(),
{
    if fields.len() > 0 {
        if fields[0].0@ == key {
            assert(fields[0].0@ == key && fields[0].1 == lookup(fields, key)->0);
        } else {
            let rest = fields.drop_first();
            lookup_finds_first(rest, key);
            match lookup(rest, key) {
                Some(value) => {
                    let i = choose|i: int|
                        #![trigger rest[i]]
                        0 <= i < rest.len() && rest[i].0@ == key && rest[i].1 == value && (
                        forall|k: int| 0 <= k < i ==> (#[trigger] rest[k]).0@ != key);
                    assert(fields[i + 1] == rest[i]);
                    assert forall|k: int| 0 <= k < i + 1 implies (#[trigger] fields[k]).0@
                        != key by {
                        if k > 0 {
                            assert(rest[k - 1] == fields[k]);
                        }
                    }
                },
                None => {
                    assert forall|k: int| 0 <= k < fields.len() implies (#[trigger] fields[k]).0@
                        != key by {
                        if k > 0 {
                            assert(rest[k - 1] == fields[k]);
                        }
                    }
                },
            }
        }
    }
}

/// A key finds the first field of its name in an object, and nothing in anything else.
pub proof fn keys_find_the_first_field(document: &Json, key: &str, out: Option<&Json>)
    requires
        call_ensures(Json::get, (document, key), out),
    ensures
        !(document is Object) ==> out is None,
        document matches Json::Object(fields) ==> match out {
            Some(value) => exists|i: int|
                #![trigger fields@[i]]
                0 <= i < fields.len() && fields@[i].0@ == key@ && fields@[i].1 == *value && (
                forall|k: int| 0 <= k < i ==> (#[trigger] fields@[k]).0@ != key@),
            None => forall|k: int| 0 <= k < fields.len() ==> (#[trigger] fields@[k]).0@ != key@,
        },
{
    if let Json::Object(fields) = document {
        lookup_finds_first(fields@, key@);
    }
}

/// A value is read as what it is and as nothing else. A number is a size where it is an unsigned
/// integer that can be counted.
pub proof fn values_are_read_as_what_they_are(
    document: &Json,
    text: Option<&str>,
    flag: Option<bool>,
    unsigned: Option<u64>,
    size: Option<usize>,
    number: Option<Double>,
    object: bool,
)
    requires
        call_ensures(Json::as_str, (document,), text),
        call_ensures(Json::as_bool, (document,), flag),
        call_ensures(Json::as_u64, (document,), unsigned),
        call_ensures(Json::as_usize, (document,), size),
        call_ensures(Json::as_double, (document,), number),
        call_ensures(Json::is_object, (document,), object),
    ensures
        text is Some <==> document is Text,
        text matches Some(found) ==> (document matches Json::Text(held) && held@ == found@),
        flag is Some <==> document is Bool,
        flag matches Some(found) ==> *document == Json::Bool(found),
        unsigned matches Some(found) ==> (document matches Json::Number(held) && held.unsigned
            == Some(found)),
        unsigned is None ==> !(document matches Json::Number(held) && held.unsigned is Some),
        number is Some <==> document is Number,
        number matches Some(found) ==> (document matches Json::Number(held) && held.value == found),
        size is Some <==> (unsigned matches Some(found) && found <= usize::MAX),
        size matches Some(count) ==> (unsigned matches Some(found) && found == count),
        object <==> document is Object,
{
}

/// What a required field holds is read, and what it does not hold is not: each reader succeeds
/// exactly on the values of its kind.
pub proof fn required_fields_are_read(
    root: &Json,
    key: &str,
    object: Result<&Json, String>,
    text: Result<&str, String>,
    flag: Result<bool, String>,
    size: Result<usize, String>,
    number: Result<Double, String>,
)
    requires
        call_ensures(object_at, (root, key), object),
        call_ensures(string_at, (root, key), text),
        call_ensures(bool_at, (root, key), flag),
        call_ensures(usize_at, (root, key), size),
        call_ensures(number_at, (root, key), number),
    ensures
        object matches Ok(found) ==> says_object(*root, key@, *found),
        object is Err ==> forall|found: Json| !says_object(*root, key@, found),
        text matches Ok(found) ==> says_text(*root, key@, found@),
        text is Err ==> forall|found: Seq<char>| !says_text(*root, key@, found),
        flag matches Ok(found) ==> says_flag(*root, key@, found),
        flag is Err ==> forall|found: bool| !says_flag(*root, key@, found),
        size matches Ok(found) ==> says_size(*root, key@, found),
        size is Err ==> forall|found: usize| !says_size(*root, key@, found),
        number matches Ok(found) ==> says_number(*root, key@, found),
        number is Err ==> forall|found: Double| !says_number(*root, key@, found),
        root.field(key@) is None ==> object is Err && text is Err && flag is Err && size is Err
            && number is Err,
{
}

/// A flag that may be left out is read where it is there, and refused where it is no flag.
pub proof fn optional_flags_may_be_left_out(
    root: &Json,
    key: &str,
    out: Result<Option<bool>, String>,
)
    requires
        call_ensures(optional_bool_at, (root, key), out),
    ensures
        root.field(key@) is None <==> out == Ok::<Option<bool>, String>(None),
        out matches Ok(Some(flag)) ==> says_flag(*root, key@, flag),
        out is Err <==> root.field(key@) is Some && !(root.field(key@)->0 is Bool),
{
}

/// The short readers answer with what the field holds; a flag that is not there is not set.
pub proof fn fields_are_read_at_once(
    root: &Json,
    key: &str,
    text: Option<&str>,
    unsigned: Option<u64>,
    flag: bool,
)
    requires
        call_ensures(Json::get_str, (root, key), text),
        call_ensures(Json::get_u64, (root, key), unsigned),
        call_ensures(Json::get_flag, (root, key), flag),
    ensures
        text matches Some(found) ==> says_text(*root, key@, found@),
        text is None ==> forall|found: Seq<char>| !says_text(*root, key@, found),
        unsigned matches Some(found) ==> (root.field(key@) matches Some(Json::Number(number))
            && number.unsigned == Some(found)),
        unsigned is None ==> !(root.field(key@) matches Some(Json::Number(number))
            && number.unsigned is Some),
        flag <==> says_flag(*root, key@, true),
{
}

/// What is read as a size, a number, a flag, a text or an object is what the field says.
pub proof fn reading_is_saying(root: Json, key: Seq<char>)
    ensures
        forall|size: usize|
            usize_of(root, key) == Ok::<usize, Seq<char>>(size) <==> #[trigger] says_size(
                root,
                key,
                size,
            ),
        forall|value: Double|
            number_of(root, key) == Ok::<Double, Seq<char>>(value) <==> #[trigger] says_number(
                root,
                key,
                value,
            ),
        forall|flag: bool|
            bool_of(root, key) == Ok::<bool, Seq<char>>(flag) <==> #[trigger] says_flag(
                root,
                key,
                flag,
            ),
        forall|text: Seq<char>|
            string_of(root, key) == Ok::<Seq<char>, Seq<char>>(text) <==> #[trigger] says_text(
                root,
                key,
                text,
            ),
        forall|object: Json|
            object_of(root, key) == Ok::<Json, Seq<char>>(object) <==> #[trigger] says_object(
                root,
                key,
                object,
            ),
{
}

/// Characters are counted as declared, or else one by one in the five texts of the document.
pub proof fn counting_is_saying(root: Json, args: Json)
    ensures
        forall|count: usize|
            num_chars_of(args, published_vocabulary_size_of(root)) == Ok::<usize, Seq<char>>(count)
                <==> #[trigger] says_characters(root, args, count),
{
    assert forall|count: usize|
        num_chars_of(args, published_vocabulary_size_of(root)) == Ok::<usize, Seq<char>>(count)
            <==> #[trigger] says_characters(root, args, count) by {
        if args.unsigned_in("num_chars"@) is None {
            if num_chars_of(args, published_vocabulary_size_of(root)) == Ok::<usize, Seq<char>>(
                count,
            ) {
                let characters = object_of(root, "characters"@)->Ok_0;
                assert(says_object(root, "characters"@, characters));
                assert(says_text(characters, "pad"@, characters.text_in("pad"@)->0));
                assert(says_text(characters, "eos"@, characters.text_in("eos"@)->0));
                assert(says_text(characters, "bos"@, characters.text_in("bos"@)->0));
                assert(says_text(characters, "phonemes"@, characters.text_in("phonemes"@)->0));
                assert(says_text(
                    characters,
                    "punctuations"@,
                    characters.text_in("punctuations"@)->0,
                ));
            }
            if says_characters(root, args, count) {
                let (characters, pad, eos, bos, sounds, marks) = choose|
                    characters: Json,
                    pad: Seq<char>,
                    eos: Seq<char>,
                    bos: Seq<char>,
                    sounds: Seq<char>,
                    marks: Seq<char>,
                | {
                    &&& #[trigger] says_object(root, "characters"@, characters)
                    &&& #[trigger] says_text(characters, "pad"@, pad)
                    &&& #[trigger] says_text(characters, "eos"@, eos)
                    &&& #[trigger] says_text(characters, "bos"@, bos)
                    &&& #[trigger] says_text(characters, "phonemes"@, sounds)
                    &&& #[trigger] says_text(characters, "punctuations"@, marks)
                    &&& count == pad.len() + eos.len() + bos.len() + sounds.len() + marks.len()
                };
                assert(object_of(root, "characters"@) == Ok::<Json, Seq<char>>(characters));
                assert(character_count(characters, "pad"@) == Ok::<nat, Seq<char>>(pad.len()));
                assert(character_count(characters, "eos"@) == Ok::<nat, Seq<char>>(eos.len()));
                assert(character_count(characters, "bos"@) == Ok::<nat, Seq<char>>(bos.len()));
                assert(character_count(characters, "phonemes"@) == Ok::<nat, Seq<char>>(
                    sounds.len(),
                ));
                assert(character_count(characters, "punctuations"@) == Ok::<nat, Seq<char>>(
                    marks.len(),
                ));
            }
        }
    }
}

/// A document has the number of characters that it declares, or else as many as it lists.
pub proof fn characters_are_declared_or_listed(
    root: &Json,
    args: &Json,
    out: Result<usize, String>,
)
    requires
        call_ensures(num_chars_at, (root, args), out),
    ensures
        out matches Ok(count) ==> says_characters(*root, *args, count),
        out is Err ==> forall|count: usize| !says_characters(*root, *args, count),
{
    counting_is_saying(*root, *args);
}

/// Under every name, what is read as a size, a number, a flag or a text is what the field says.
pub proof fn arguments_are_said(args: Json)
    ensures
        forall|key: Seq<char>, size: usize|
            #[trigger] says_size(args, key, size) <==> usize_of(args, key) == Ok::<
                usize,
                Seq<char>,
            >(size),
        forall|key: Seq<char>, value: Double|
            #[trigger] says_number(args, key, value) <==> number_of(args, key) == Ok::<
                Double,
                Seq<char>,
            >(value),
        forall|key: Seq<char>, flag: bool|
            #[trigger] says_flag(args, key, flag) <==> bool_of(args, key) == Ok::<bool, Seq<char>>(
                flag,
            ),
        forall|key: Seq<char>, text: Seq<char>|
            #[trigger] says_text(args, key, text) <==> string_of(args, key) == Ok::<
                Seq<char>,
                Seq<char>,
            >(text),
{
}

/// A vocabulary has as many symbols as its five texts have characters together, and is counted
/// where all five are there and the count fits.
pub proof fn vocabularies_are_counted(
    root: &Json,
    characters: &Json,
    out: Result<usize, String>,
    published: Result<usize, String>,
)
    requires
        call_ensures(vocabulary_size, (characters,), out),
        call_ensures(published_vocabulary_size, (root,), published),
    ensures
        out matches Ok(count) ==> {
            &&& characters.field("pad"@) matches Some(Json::Text(pad))
            &&& characters.field("eos"@) matches Some(Json::Text(eos))
            &&& characters.field("bos"@) matches Some(Json::Text(bos))
            &&& characters.field("phonemes"@) matches Some(Json::Text(sounds))
            &&& characters.field("punctuations"@) matches Some(Json::Text(marks))
            &&& count == pad@.len() + eos@.len() + bos@.len() + sounds@.len() + marks@.len()
        },
        out is Err ==> !({
            &&& characters.field("pad"@) matches Some(Json::Text(pad))
            &&& characters.field("eos"@) matches Some(Json::Text(eos))
            &&& characters.field("bos"@) matches Some(Json::Text(bos))
            &&& characters.field("phonemes"@) matches Some(Json::Text(sounds))
            &&& characters.field("punctuations"@) matches Some(Json::Text(marks))
            &&& pad@.len() + eos@.len() + bos@.len() + sounds@.len() + marks@.len() <= usize::MAX
        }),
        says_object(*root, "characters"@, *characters) ==> (published is Ok <==> out is Ok),
        says_object(*root, "characters"@, *characters) ==> (published matches Ok(count) ==> out
            == Ok::<usize, String>(count)),
        published is Ok ==> root.field("characters"@) is Some,
{
    reading_is_saying(*root, "characters"@);
}

/// A list is read as its items, and nothing else as a list.
pub proof fn lists_are_read_as_their_items(document: &Json, out: Option<&Vec<Json>>)
    requires
        call_ensures(Json::as_array, (document,), out),
    ensures
        out is Some <==> document is List,
        out matches Some(items) ==> *document == Json::List(*items),
{
}

} // verus!
