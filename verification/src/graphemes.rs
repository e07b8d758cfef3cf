//! From text to the symbols of a grapheme checkpoint.

use vstd::prelude::*;

use crate::json::{first, Json};
use crate::request::UtterancePlan;
use crate::sorting::{drop_repeats, sort_chars, sorted_chars, without_repeats};
use crate::text::{
    ascii_lowered, ascii_lowered_text, ascii_raised, ascii_raised_text, characters_of,
    escaped_unicode, escaped_unicode_text, is_white_space, joined, quoted_char, quoted_char_text,
    text_of, white_space, with_text,
};

verus! {

/// The alphabet of a checkpoint.
#[derive(Debug, Clone)]
pub struct PhonemeCharactersConfig {
    pub pad: Option<String>,
    pub eos: Option<String>,
    pub bos: Option<String>,
    pub blank: Option<String>,
    pub characters: String,
    pub punctuations: String,
    pub is_unique: bool,
    pub is_sorted: bool,
}

/// The tokenizer of a checkpoint.
#[derive(Debug, Clone)]
pub struct PhonemeTokenizerConfig {
    pub use_phonemes: bool,
    pub phoneme_language: Option<String>,
    pub characters: PhonemeCharactersConfig,
}

/// Whether an alphabet is sorted: only where a configuration says so. One that does not mention
/// it keeps the order in which its alphabet is written.
pub open spec fn sorted_where_declared(root: Json, is_sorted: bool) -> bool {
    match root.field("characters"@) {
        Some(characters) => characters.field("is_sorted"@) is Some && is_sorted,
        None => false,
    }
}

/// Whether an alphabet is sorted: only where a configuration says so.
pub fn declared_order(root: &Json, is_sorted: bool) -> (out: bool)
    ensures
        out == sorted_where_declared(*root, is_sorted),
{
    match root.get("characters") {
        Some(characters) => characters.get("is_sorted").is_some() && is_sorted,
        None => false,
    }
}

/// A special symbol, where it is a single character.
pub open spec fn special(symbol: Option<String>) -> Option<char> {
    match symbol {
        Some(text) => if text@.len() == 1 {
            Some(text@[0])
        } else {
            None
        },
        None => None,
    }
}

/// An alphabet behind a special symbol.
pub open spec fn behind(symbol: Option<String>, alphabet: Seq<char>) -> Seq<char> {
    match special(symbol) {
        Some(c) => seq![c] + alphabet,
        None => alphabet,
    }
}

impl PhonemeCharactersConfig {
    /// The alphabet in its order.
    pub open spec fn ordered(self) -> Seq<char> {
        if self.is_unique {
            without_repeats(sorted_chars(self.characters@))
        } else if self.is_sorted {
            sorted_chars(self.characters@)
        } else {
            self.characters@
        }
    }

    /// Padding, end, begin and blank symbols, then the alphabet, then the punctuation.
    pub open spec fn symbols(self) -> Seq<char> {
        behind(self.pad, behind(self.eos, behind(self.bos, behind(self.blank, self.ordered()))))
            + self.punctuations@
    }
}

/// Puts a special symbol before an alphabet.
fn prepend_special(alphabet: &mut Vec<char>, symbol: &Option<String>)
    ensures
        final(alphabet)@ == behind(*symbol, old(alphabet)@),
{
    if let Some(text) = symbol {
        let characters = characters_of(text.as_str());
        if characters.len() == 1 {
            alphabet.insert(0, characters[0]);
            assert(alphabet@ =~= behind(*symbol, old(alphabet)@));
        }
    }
}

/// The first symbol that occurred before.
pub open spec fn first_repeat(symbols: Seq<char>) -> Option<char>
    decreases symbols.len(),
{
    if symbols.len() == 0 {
        None
    } else {
        match first_repeat(symbols.drop_last()) {
            Some(c) => Some(c),
            None => if symbols.drop_last().contains(symbols.last()) {
                Some(symbols.last())
            } else {
                None
            },
        }
    }
}

/// The symbols are distinct exactly where none occurred before.
pub proof fn distinct_without_repeat(symbols: Seq<char>)
    ensures
        first_repeat(symbols) is None <==> symbols.no_duplicates(),
    decreases symbols.len(),
{
    if symbols.len() > 0 {
        let front = symbols.drop_last();
        distinct_without_repeat(front);
        if first_repeat(symbols) is None {
            assert forall|i: int, j: int|
                0 <= i < symbols.len() && 0 <= j < symbols.len() && i != j implies symbols[i]
                != symbols[j] by {
                if i < front.len() && j < front.len() {
                    assert(front[i] != front[j]);
                } else if i < front.len() {
                    assert(front[i] != symbols.last());
                } else {
                    assert(front[j] != symbols.last());
                }
            }
        }
        if symbols.no_duplicates() {
            assert(front.no_duplicates()) by {
                assert forall|i: int, j: int|
                    0 <= i < front.len() && 0 <= j < front.len() && i != j implies front[i]
                    != front[j] by {
                    assert(symbols[i] != symbols[j]);
                }
            }
            if front.contains(symbols.last()) {
                let i = choose|i: int| 0 <= i < front.len() && front[i] == symbols.last();
                assert(symbols[i] == symbols[symbols.len() - 1]);
            }
        }
    }
}

proof fn repeat_persists(symbols: Seq<char>, count: int)
    requires
        0 <= count <= symbols.len(),
        first_repeat(symbols.take(count)) is Some,
    ensures
        first_repeat(symbols) == first_repeat(symbols.take(count)),
    decreases symbols.len() - count,
{
    if count < symbols.len() {
        assert(symbols.take(count + 1).drop_last() =~= symbols.take(count));
        repeat_persists(symbols, count + 1);
    } else {
        assert(symbols.take(count) =~= symbols);
    }
}

proof fn code_point(c: char)
    ensures
        0 <= c as int,
        (c as int) < 0x11_0000,
{
}

/// Distinct characters are fewer than there are code points.
pub proof fn distinct_are_few(symbols: Seq<char>)
    requires
        symbols.no_duplicates(),
    ensures
        symbols.len() <= 0x11_0000,
{
    let codes = Seq::new(symbols.len(), |i: int| symbols[i] as int);
    assert(codes.no_duplicates()) by {
        assert forall|i: int, j: int|
            0 <= i < codes.len() && 0 <= j < codes.len() && i != j implies codes[i]
            != codes[j] by {
            assert(symbols[i] != symbols[j]);
            code_point(symbols[i]);
            code_point(symbols[j]);
        }
    }
    codes.unique_seq_to_set();
    let range = vstd::set_lib::set_int_range(0, 0x11_0000);
    vstd::set_lib::lemma_int_range(0, 0x11_0000);
    assert(codes.to_set().subset_of(range)) by {
        assert forall|code: int| codes.to_set().contains(code) implies range.contains(code) by {
            let i = choose|i: int| 0 <= i < codes.len() && codes[i] == code;
            code_point(symbols[i]);
        }
    }
    vstd::set_lib::lemma_len_subset(codes.to_set(), range);
}

/// Where a symbol stands among others.
fn position(symbols: &Vec<char>, count: usize, symbol: char) -> (out: Option<usize>)
    requires
        count <= symbols.len(),
    ensures
        match out {
            Some(at) => at < count && symbols@[at as int] == symbol,
            None => !symbols@.take(count as int).contains(symbol),
        },
{
    let mut at: usize = 0;
    while at < count
        invariant
            at <= count <= symbols.len(),
            forall|k: int| 0 <= k < at ==> symbols@[k] != symbol,
        decreases count - at,
    {
        if symbols[at] == symbol {
            return Some(at);
        }
        at = at + 1;
    }
    None
}

/// The first symbol that occurred before.
fn find_repeat(symbols: &Vec<char>) -> (out: Option<char>)
    ensures
        out == first_repeat(symbols@),
{
    let mut count: usize = 0;
    assert(symbols@.take(0) =~= Seq::empty());
    while count < symbols.len()
        invariant
            count <= symbols.len(),
            first_repeat(symbols@.take(count as int)) is None,
        decreases symbols.len() - count,
    {
        let symbol: char = symbols[count];
        proof {
            assert(symbols@.take(count + 1).drop_last() =~= symbols@.take(count as int));
            assert(symbols@.take(count + 1).last() == symbol);
        }
        if let Some(at) = position(symbols, count, symbol) {
            proof {
                assert(symbols@.take(count as int)[at as int] == symbol);
                repeat_persists(symbols@, count + 1);
            }
            return Some(symbol);
        }
        count = count + 1;
    }
    assert(symbols@.take(symbols.len() as int) =~= symbols@);
    None
}

/// Where the first dash of a text stands, or its length.
pub open spec fn first_dash(text: Seq<char>) -> int
    decreases text.len(),
{
    if text.len() == 0 {
        0
    } else if text[0] == '-' {
        0
    } else {
        1 + first_dash(text.drop_first())
    }
}

/// A language tag as a small-letter language and, where there is one, a capital region.
pub open spec fn variety(tag: Seq<char>) -> Seq<char> {
    let dash = first_dash(tag);
    if dash >= tag.len() {
        ascii_lowered(tag)
    } else {
        let rest = tag.skip(dash + 1);
        ascii_lowered(tag.take(dash)) + "-"@ + ascii_raised(rest.take(first_dash(rest)))
    }
}

proof fn first_dash_splits(text: Seq<char>)
    ensures
        0 <= first_dash(text) <= text.len(),
        forall|i: int| 0 <= i < first_dash(text) ==> #[trigger] text[i] != '-',
        first_dash(text) < text.len() ==> text[first_dash(text)] == '-',
    decreases text.len(),
{
    if text.len() > 0 && text[0] != '-' {
        let rest = text.drop_first();
        first_dash_splits(rest);
        assert forall|i: int| 0 <= i < first_dash(text) implies #[trigger] text[i] != '-' by {
            if i > 0 {
                assert(rest[i - 1] != '-');
            }
        }
    }
}

/// Where the first dash stands from a place on.
fn find_dash(text: &Vec<char>, from: usize) -> (out: usize)
    requires
        from <= text.len(),
    ensures
        out == from + first_dash(text@.skip(from as int)),
        from <= out <= text.len(),
{
    let mut at: usize = from;
    proof {
        first_dash_splits(text@.skip(from as int));
    }
    while at < text.len() && text[at] != '-'
        invariant
            from <= at <= text.len(),
            forall|i: int| from <= i < at ==> text@[i] != '-',
        decreases text.len() - at,
    {
        at = at + 1;
    }
    proof {
        let rest = text@.skip(from as int);
        let dash = first_dash(rest);
        if dash < at - from {
            assert(rest[dash] == text@[from + dash]);
        }
        if at - from < dash {
            assert(rest[at - from] == text@[at as int]);
        }
    }
    at
}

fn copied(characters: &Vec<char>, from: usize, until: usize) -> (out: Vec<char>)
    requires
        from <= until <= characters.len(),
    ensures
        out@ == characters@.subrange(from as int, until as int),
{
    let mut out: Vec<char> = Vec::new();
    let mut i: usize = from;
    while i < until
        invariant
            from <= i <= until <= characters.len(),
            out@ == characters@.subrange(from as int, i as int),
        decreases until - i,
    {
        out.push(characters[i]);
        assert(out@ =~= characters@.subrange(from as int, i + 1));
        i = i + 1;
    }
    out
}

/// A language tag as a small-letter language and, where there is one, a capital region.
pub fn normalize_variety(language: &str) -> (out: String)
    ensures
        out@ == variety(language@),
{
    let tag = characters_of(language);
    assert(tag@.skip(0) =~= tag@);
    let dash: usize = find_dash(&tag, 0);
    if dash >= tag.len() {
        return ascii_lowered_text(language);
    }
    let head = copied(&tag, 0, dash);
    assert(head@ =~= tag@.take(dash as int));
    let end: usize = find_dash(&tag, dash + 1);
    let region = copied(&tag, dash + 1, end);
    proof {
        let rest = tag@.skip(dash + 1);
        assert(region@ =~= rest.take(first_dash(rest)));
    }
    let mut out = ascii_lowered_text(text_of(head.as_slice()).as_str());
    out.append("-");
    out.append(ascii_raised_text(text_of(region.as_slice()).as_str()).as_str());
    out
}

/// The words of a text: its longest stretches without white space.
pub open spec fn words(text: Seq<char>) -> Seq<Seq<char>>
    decreases text.len(),
{
    if text.len() == 0 {
        Seq::empty()
    } else {
        let before = text.drop_last();
        let found = words(before);
        if white_space(text.last()) {
            found
        } else if before.len() == 0 || white_space(before.last()) {
            found.push(seq![text.last()])
        } else {
            found.update(found.len() - 1, found.last().push(text.last()))
        }
    }
}

/// A text with one space between its words and none around them.
pub open spec fn respaced(text: Seq<char>) -> Seq<char> {
    joined(words(text), " "@)
}

proof fn words_are_filled(text: Seq<char>)
    ensures
        forall|i: int| 0 <= i < words(text).len() ==> (#[trigger] words(text)[i]).len() > 0,
        text.len() > 0 && !white_space(text.last()) ==> words(text).len() > 0,
    decreases text.len(),
{
    if text.len() > 0 {
        let before = words(text.drop_last());
        words_are_filled(text.drop_last());
        assert forall|i: int| 0 <= i < words(text).len() implies (#[trigger] words(text)[i]).len()
            > 0 by {
            if i < before.len() {
                assert(before[i].len() > 0);
            }
        }
    }
}

proof fn joined_push(parts: Seq<Seq<char>>, separator: Seq<char>, part: Seq<char>)
    ensures
        joined(parts.push(part), separator) == if parts.len() == 0 {
            part
        } else {
            joined(parts, separator) + separator + part
        },
{
    assert(parts.push(part).drop_last() =~= parts);
}

proof fn joined_extend(parts: Seq<Seq<char>>, separator: Seq<char>, c: char)
    requires
        parts.len() > 0,
    ensures
        joined(parts.update(parts.len() - 1, parts.last().push(c)), separator) == joined(
            parts,
            separator,
        ).push(c),
{
    let longer = parts.update(parts.len() - 1, parts.last().push(c));
    if parts.len() > 1 {
        assert(longer.drop_last() =~= parts.drop_last());
        let front = joined(parts.drop_last(), separator) + separator;
        assert(front + parts.last().push(c) =~= (front + parts.last()).push(c));
    }
}

/// A text with one space between its words and none around them.
fn respace(text: &str) -> (out: Vec<char>)
    ensures
        out@ == respaced(text@),
{
    let characters = characters_of(text);
    let mut out: Vec<char> = Vec::new();
    let mut begun: bool = false;
    let mut inside: bool = false;
    let mut i: usize = 0;
    assert(words(text@.take(0)) =~= Seq::empty());
    while i < characters.len()
        invariant
            i <= characters.len(),
            characters@ == text@,
            out@ == respaced(text@.take(i as int)),
            begun == (words(text@.take(i as int)).len() > 0),
            inside == (i > 0 && !white_space(text@[i - 1])),
        decreases characters.len() - i,
    {
        let c: char = characters[i];
        let ghost prefix = text@.take(i as int);
        proof {
            let longer = text@.take(i + 1);
            assert(longer.drop_last() =~= prefix);
            assert(longer.last() == c);
            if i > 0 {
                assert(prefix.last() == text@[i - 1]);
            }
            words_are_filled(prefix);
            reveal_strlit(" ");
        }
        if is_white_space(c) {
            inside = false;
        } else if inside {
            proof {
                joined_extend(words(prefix), " "@, c);
            }
            out.push(c);
        } else {
            proof {
                joined_push(words(prefix), " "@, seq![c]);
                assert(begun ==> out@.push(' ').push(c) =~= respaced(prefix) + " "@ + seq![c]);
                assert(!begun ==> out@.push(c) =~= seq![c]) by {
                    if !begun {
                        assert(words(prefix) =~= Seq::empty());
                    }
                }
            }
            if begun {
                out.push(' ');
            }
            out.push(c);
            begun = true;
            inside = true;
        }
        i = i + 1;
    }
    assert(text@.take(text@.len() as int) =~= text@);
    out
}

#[derive(Debug, Clone, Copy, PartialEq, Eq, Structural)]
pub enum LinguisticInputKind {
    Graphemes,
    Phonemes,
}

#[derive(Debug, Clone, Copy, PartialEq, Eq, Structural)]
pub enum LinguisticIntent {
    Text,
    Phones,
}

/// What a model reads of a linguistic plan.
#[derive(Debug, Clone)]
pub struct ModelInputContract {
    pub kind: LinguisticInputKind,
    pub vocabulary_fingerprint: String,
    pub supported_varieties: Vec<String>,
    pub consumes: Vec<LinguisticIntent>,
}

impl ModelInputContract {
    /// A grapheme checkpoint with the given symbols, for a language if one is named.
    pub open spec fn describes(self, symbols: Seq<char>, language: Option<String>) -> bool {
        &&& self.kind == LinguisticInputKind::Graphemes
        &&& self.vocabulary_fingerprint@ == "tacotron-grapheme-v1:"@ + escaped_unicode(symbols)
        &&& self.supported_varieties.len() == 1
        &&& self.supported_varieties@[0]@ == (match language {
            Some(tag) => variety(tag@),
            None => "*"@,
        })
        &&& self.consumes@ == seq![LinguisticIntent::Text]
    }
}

/// Symbols and their numbers in a checkpoint.
#[derive(Debug, Clone)]
pub struct PhonemeTokenIds {
    pub ids: Vec<i64>,
    pub projected_symbols: String,
}

/// Reads text as the symbols of a grapheme checkpoint.
#[derive(Debug, Clone)]
pub struct TacotronGraphemeProjector {
    vocabulary: Vec<char>,
    contract: ModelInputContract,
}

/// The first reason why a tokenizer makes no grapheme projector.
pub open spec fn projector_fault(config: PhonemeTokenizerConfig) -> Option<Seq<char>> {
    let symbols = config.characters.symbols();
    if config.use_phonemes {
        Some("grapheme projector cannot load a phoneme-input checkpoint"@)
    } else if first_repeat(symbols) is Some {
        Some(
            "Tacotron grapheme vocabulary contains duplicate symbol "@ + quoted_char(
                first_repeat(symbols).unwrap(),
            ),
        )
    } else if symbols.len() == 0 {
        Some("Tacotron grapheme vocabulary is empty"@)
    } else {
        None
    }
}

/// The first character of a text that is no symbol.
pub open spec fn first_unknown(text: Seq<char>, symbols: Seq<char>) -> Option<char>
    decreases text.len(),
{
    if text.len() == 0 {
        None
    } else {
        match first_unknown(text.drop_last(), symbols) {
            Some(c) => Some(c),
            None => if symbols.contains(text.last()) {
                None
            } else {
                Some(text.last())
            },
        }
    }
}

proof fn unknown_persists(text: Seq<char>, symbols: Seq<char>, count: int)
    requires
        0 <= count <= text.len(),
        first_unknown(text.take(count), symbols) is Some,
    ensures
        first_unknown(text, symbols) == first_unknown(text.take(count), symbols),
    decreases text.len() - count,
{
    if count < text.len() {
        assert(text.take(count + 1).drop_last() =~= text.take(count));
        unknown_persists(text, symbols, count + 1);
    } else {
        assert(text.take(count) =~= text);
    }
}

/// What speaks against something, where a check of it found anything.
pub open spec fn objection(verdict: Result<(), String>) -> Option<Seq<char>> {
    match verdict {
        Ok(_) => None,
        Err(message) => Some(message@),
    }
}

/// The first reason why the text of a plan cannot be read.
pub open spec fn projection_fault(plan: UtterancePlan, symbols: Seq<char>) -> Option<Seq<char>> {
    match plan.intended_text {
        None => Some("grapheme Tacotron checkpoint requires intended text"@),
        Some(text) => if respaced(text@).len() == 0 {
            Some("Tacotron text is empty after whitespace normalization"@)
        } else {
            match first_unknown(respaced(text@), symbols) {
                Some(c) => Some(
                    "grapheme "@ + quoted_char(c)
                        + " is not in the Tacotron checkpoint vocabulary; normalize the text with the checkpoint's declared cleaner before synthesis"@,
                ),
                None => None,
            }
        },
    }
}

/// The symbols of a tokenizer, in their order.
fn read_symbols(config: &PhonemeTokenizerConfig) -> (out: Result<Vec<char>, String>)
    ensures
        match out {
            Ok(symbols) => {
                &&& projector_fault(*config) is None
                &&& symbols@ == config.characters.symbols()
                &&& symbols@.len() > 0
                &&& symbols@.no_duplicates()
            },
            Err(message) => projector_fault(*config) == Some(message@),
        },
{
    if config.use_phonemes {
        return Err("grapheme projector cannot load a phoneme-input checkpoint".to_owned());
    }
    let mut vocabulary = characters_of(config.characters.characters.as_str());
    if config.characters.is_unique {
        let sorted = sort_chars(&vocabulary);
        vocabulary = drop_repeats(&sorted);
    } else if config.characters.is_sorted {
        vocabulary = sort_chars(&vocabulary);
    }
    prepend_special(&mut vocabulary, &config.characters.blank);
    prepend_special(&mut vocabulary, &config.characters.bos);
    prepend_special(&mut vocabulary, &config.characters.eos);
    prepend_special(&mut vocabulary, &config.characters.pad);
    let mut punctuations = characters_of(config.characters.punctuations.as_str());
    vocabulary.append(&mut punctuations);
    assert(vocabulary@ =~= config.characters.symbols());
    if let Some(symbol) = find_repeat(&vocabulary) {
        return Err(
            with_text(
                "Tacotron grapheme vocabulary contains duplicate symbol ",
                quoted_char_text(symbol).as_str(),
            ),
        );
    }
    if vocabulary.len() == 0 {
        return Err("Tacotron grapheme vocabulary is empty".to_owned());
    }
    proof {
        distinct_without_repeat(vocabulary@);
    }
    Ok(vocabulary)
}

/// The contract of a grapheme checkpoint with the given symbols.
fn declare(symbols: &Vec<char>, language: &Option<String>) -> (out: ModelInputContract)
    ensures
        out.describes(symbols@, *language),
{
    let supported = match language {
        Some(tag) => normalize_variety(tag.as_str()),
        None => "*".to_owned(),
    };
    let mut supported_varieties: Vec<String> = Vec::new();
    supported_varieties.push(supported);
    let mut consumes: Vec<LinguisticIntent> = Vec::new();
    consumes.push(LinguisticIntent::Text);
    assert(consumes@ =~= seq![LinguisticIntent::Text]);
    ModelInputContract {
        kind: LinguisticInputKind::Graphemes,
        vocabulary_fingerprint: with_text(
            "tacotron-grapheme-v1:",
            escaped_unicode_text(symbols.as_slice()).as_str(),
        ),
        supported_varieties,
        consumes,
    }
}

/// What a grapheme checkpoint reads, before its contract is checked.
pub fn declared_contract(config: &PhonemeTokenizerConfig) -> (out: Result<
    ModelInputContract,
    String,
>)
    ensures
        match out {
            Ok(contract) => projector_fault(*config) is None && contract.describes(
                config.characters.symbols(),
                config.phoneme_language,
            ),
            Err(message) => projector_fault(*config) == Some(message@),
        },
{
    let symbols = read_symbols(config)?;
    Ok(declare(&symbols, &config.phoneme_language))
}

impl TacotronGraphemeProjector {
    /// The symbols, each at the place of its number.
    pub closed spec fn symbols(self) -> Seq<char> {
        self.vocabulary@
    }

    pub closed spec fn input_contract(self) -> ModelInputContract {
        self.contract
    }

    /// There are symbols, and they are distinct.
    pub open spec fn wf(self) -> bool {
        self.symbols().len() > 0 && self.symbols().no_duplicates()
    }

    /// The projector of a tokenizer, where `validated` says what the check of its contract found.
    pub fn from_config(config: &PhonemeTokenizerConfig, validated: Result<(), String>) -> (out:
        Result<Self, String>)
        ensures
            match out {
                Ok(projector) => {
                    &&& first(projector_fault(*config), objection(validated)) is None
                    &&& projector.wf()
                    &&& projector.symbols() == config.characters.symbols()
                    &&& projector.input_contract().describes(
                        projector.symbols(),
                        config.phoneme_language,
                    )
                },
                Err(message) => first(projector_fault(*config), objection(validated)) == Some(
                    message@,
                ),
            },
    {
        let vocabulary = read_symbols(config)?;
        let contract = declare(&vocabulary, &config.phoneme_language);
        match validated {
            Ok(_) => Ok(TacotronGraphemeProjector { vocabulary, contract }),
            Err(message) => Err(message),
        }
    }

    pub fn vocabulary(&self) -> (out: &[char])
        ensures
            out@ == self.symbols(),
    {
        self.vocabulary.as_slice()
    }

    pub fn contract(&self) -> (out: &ModelInputContract)
        ensures
            *out == self.input_contract(),
    {
        &self.contract
    }

    /// The numbers of the symbols of a plan's text, once its white space is normalized, where
    /// `supported` says what the contract has against the plan.
    pub fn project(&self, plan: &UtterancePlan, supported: Result<(), String>) -> (out: Result<
        PhonemeTokenIds,
        String,
    >)
        requires
            self.wf(),
        ensures
            match out {
                Ok(tokens) => {
                    &&& first(objection(supported), projection_fault(*plan, self.symbols())) is None
                    &&& tokens.projected_symbols@ == respaced(plan.intended_text.unwrap()@)
                    &&& tokens.ids.len() == tokens.projected_symbols@.len()
                    &&& forall|i: int|
                        0 <= i < tokens.ids.len() ==> 0 <= #[trigger] tokens.ids@[i]
                            < self.symbols().len() && self.symbols()[tokens.ids@[i] as int]
                            == tokens.projected_symbols@[i]
                },
                Err(message) => first(
                    objection(supported),
                    projection_fault(*plan, self.symbols()),
                ) == Some(message@),
            },
    {
        if let Err(message) = supported {
            return Err(message);
        }
        let intended = match &plan.intended_text {
            Some(text) => text,
            None => {
                return Err("grapheme Tacotron checkpoint requires intended text".to_owned());
            },
        };
        let symbols = respace(intended.as_str());
        if symbols.len() == 0 {
            return Err("Tacotron text is empty after whitespace normalization".to_owned());
        }
        let mut ids: Vec<i64> = Vec::new();
        let mut i: usize = 0;
        proof {
            distinct_are_few(self.symbols());
            assert(self.vocabulary@.take(self.vocabulary.len() as int) =~= self.vocabulary@);
        }
        while i < symbols.len()
            invariant
                i <= symbols.len(),
                symbols@ == respaced(intended@),
                symbols.len() > 0,
                plan.intended_text == Some(*intended),
                supported is Ok,
                ids.len() == i,
                self.vocabulary.len() <= 0x11_0000,
                self.vocabulary@.take(self.vocabulary.len() as int) == self.vocabulary@,
                first_unknown(symbols@.take(i as int), self.symbols()) is None,
                forall|k: int|
                    0 <= k < i ==> 0 <= #[trigger] ids@[k] < self.symbols().len()
                        && self.symbols()[ids@[k] as int] == symbols@[k],
            decreases symbols.len() - i,
        {
            let symbol: char = symbols[i];
            proof {
                assert(symbols@.take(i + 1).drop_last() =~= symbols@.take(i as int));
                assert(symbols@.take(i + 1).last() == symbol);
            }
            match position(&self.vocabulary, self.vocabulary.len(), symbol) {
                Some(at) => {
                    ids.push(at as i64);
                },
                None => {
                    proof {
                        unknown_persists(symbols@, self.symbols(), i + 1);
                    }
                    let mut message = with_text("grapheme ", quoted_char_text(symbol).as_str());
                    message.append(
                        " is not in the Tacotron checkpoint vocabulary; normalize the text with the checkpoint's declared cleaner before synthesis",
                    );
                    return Err(message);
                },
            }
            i = i + 1;
        }
        assert(symbols@.take(symbols.len() as int) =~= symbols@);
        Ok(PhonemeTokenIds { ids, projected_symbols: text_of(symbols.as_slice()) })
    }
}

/// Equal characters have equal numbers and different characters different ones, wherever they
/// stand: a repeated character stays a repeated token.
pub proof fn numbers_tell_symbols_apart(symbols: Seq<char>, first: int, second: int)
    requires
        symbols.no_duplicates(),
        0 <= first < symbols.len(),
        0 <= second < symbols.len(),
    ensures
        first == second <==> symbols[first] == symbols[second],
{
}

/// An alphabet counts as sorted exactly where it says whether it is and is.
pub proof fn order_must_be_declared(root: &Json, is_sorted: bool, out: bool)
    requires
        call_ensures(declared_order, (root, is_sorted), out),
    ensures
        out <==> is_sorted && (root.field("characters"@) matches Some(characters)
            && characters.field("is_sorted"@) is Some),
{
}

proof fn dash_stands_first(text: Seq<char>, at: int)
    requires
        0 <= at <= text.len(),
        forall|i: int| 0 <= i < at ==> #[trigger] text[i] != '-',
        at < text.len() ==> text[at] == '-',
    ensures
        first_dash(text) == at,
    decreases text.len(),
{
    if at > 0 {
        let rest = text.drop_first();
        assert(text[0] != '-');
        assert forall|i: int| 0 <= i < at - 1 implies #[trigger] rest[i] != '-' by {
            assert(text[i + 1] != '-');
        }
        dash_stands_first(rest, at - 1);
    }
}

/// A tag without a dash is a language in small letters.
pub proof fn bare_languages_are_small(language: &str, small: String, out: String)
    requires
        forall|i: int| 0 <= i < language@.len() ==> #[trigger] language@[i] != '-',
        call_ensures(ascii_lowered_text, (language,), small),
        call_ensures(normalize_variety, (language,), out),
    ensures
        out@ == small@,
{
    dash_stands_first(language@, language@.len() as int);
}

/// A tag with a dash is a language in small letters, a dash, and a region in capitals. What a
/// second dash sets off is dropped.
pub proof fn regions_are_capital(
    language: &str,
    head: &str,
    region: &str,
    rest: Seq<char>,
    small: String,
    capital: String,
    out: String,
)
    requires
        forall|i: int| 0 <= i < head@.len() ==> #[trigger] head@[i] != '-',
        forall|i: int| 0 <= i < region@.len() ==> #[trigger] region@[i] != '-',
        language@ == head@ + seq!['-'] + region@ || language@ == head@ + seq!['-'] + region@
            + seq!['-'] + rest,
        call_ensures(ascii_lowered_text, (head,), small),
        call_ensures(ascii_raised_text, (region,), capital),
        call_ensures(normalize_variety, (language,), out),
    ensures
        out@ == small@ + seq!['-'] + capital@,
{
    reveal_strlit("-");
    assert("-"@ =~= seq!['-']);
    let at = head@.len() as int;
    let end = region@.len() as int;
    assert forall|i: int| 0 <= i < at implies #[trigger] language@[i] != '-' by {
        assert(language@[i] == head@[i]);
    }
    assert(language@[at] == '-');
    dash_stands_first(language@, at);
    let behind_dash = language@.skip(at + 1);
    assert forall|i: int| 0 <= i < end implies #[trigger] behind_dash[i] != '-' by {
        assert(behind_dash[i] == region@[i]);
    }
    if end < behind_dash.len() {
        assert(behind_dash[end] == '-');
    }
    dash_stands_first(behind_dash, end);
    assert(language@.take(at) =~= head@);
    assert(behind_dash.take(end) =~= region@);
}

/// A special symbol as a text: the symbol where it is a single character, nothing otherwise.
pub open spec fn single(symbol: Option<String>) -> Seq<char> {
    if symbol matches Some(text) && text@.len() == 1 {
        symbol->0@
    } else {
        Seq::empty()
    }
}

/// An alphabet in the order that a configuration asks for: each character once and ascending, all
/// ascending, or as written.
pub open spec fn alphabet_of(config: PhonemeCharactersConfig, alphabet: Seq<char>) -> bool {
    if config.is_unique {
        &&& forall|i: int, j: int| 0 <= i < j < alphabet.len() ==> alphabet[i] < alphabet[j]
        &&& forall|c: char| #[trigger] alphabet.contains(c) <==> config.characters@.contains(c)
    } else if config.is_sorted {
        &&& forall|i: int, j: int| 0 <= i <= j < alphabet.len() ==> alphabet[i] <= alphabet[j]
        &&& alphabet.to_multiset() == config.characters@.to_multiset()
    } else {
        alphabet == config.characters@
    }
}

proof fn ordered_is_alphabet(config: PhonemeCharactersConfig)
    ensures
        alphabet_of(config, config.ordered()),
{
    broadcast use vstd::seq_lib::group_to_multiset_ensures;

    let written = config.characters@;
    crate::sorting::sorting_orders_chars(written);
    let sorted = sorted_chars(written);
    crate::sorting::dropping_repeats_leaves_each_once(sorted);
    if config.is_unique {
        assert forall|c: char| #[trigger] config.ordered().contains(c) <==> written.contains(c) by {
            assert(sorted.contains(c) <==> sorted.to_multiset().count(c) > 0);
            assert(written.contains(c) <==> written.to_multiset().count(c) > 0);
        }
    }
}

/// A projector exists exactly where the checkpoint reads no phonemes, has symbols, no symbol twice,
/// and its contract was accepted. Its symbols are the single special ones for padding, the end, the
/// begin and blanks, then the alphabet in the order asked for, then the punctuation.
pub proof fn vocabularies_have_their_order(
    config: &PhonemeTokenizerConfig,
    validated: Result<(), String>,
    out: Result<TacotronGraphemeProjector, String>,
)
    requires
        call_ensures(TacotronGraphemeProjector::from_config, (config, validated), out),
    ensures
        exists|alphabet: Seq<char>| #[trigger]
            alphabet_of(config.characters, alphabet) && {
                let characters = config.characters;
                let symbols = single(characters.pad) + single(characters.eos) + single(
                    characters.bos,
                ) + single(characters.blank) + alphabet + characters.punctuations@;
                &&& out is Ok <==> !config.use_phonemes && symbols.len() > 0
                    && symbols.no_duplicates() && validated is Ok
                &&& out matches Ok(projector) ==> projector.symbols() == symbols
            },
{
    let characters = config.characters;
    let alphabet = characters.ordered();
    ordered_is_alphabet(characters);
    let symbols = single(characters.pad) + single(characters.eos) + single(characters.bos)
        + single(characters.blank) + alphabet + characters.punctuations@;
    one_symbol_is_put_before(characters.blank, alphabet);
    let with_blank = behind(characters.blank, alphabet);
    one_symbol_is_put_before(characters.bos, with_blank);
    let with_begin = behind(characters.bos, with_blank);
    one_symbol_is_put_before(characters.eos, with_begin);
    let with_end = behind(characters.eos, with_begin);
    one_symbol_is_put_before(characters.pad, with_end);
    assert(characters.symbols() =~= symbols);
    distinct_without_repeat(symbols);
    assert(alphabet_of(characters, alphabet));
}

proof fn one_symbol_is_put_before(symbol: Option<String>, alphabet: Seq<char>)
    ensures
        behind(symbol, alphabet) == single(symbol) + alphabet,
{
    if let Some(text) = symbol {
        if text@.len() == 1 {
            assert(text@ =~= seq![text@[0]]);
        }
    }
    assert(behind(symbol, alphabet) =~= single(symbol) + alphabet);
}

/// A grapheme checkpoint reads graphemes of the intended text, in the language that it names or in
/// any. Its vocabulary is told by its symbols, escaped one by one.
pub proof fn contracts_tell_vocabularies(
    config: &PhonemeTokenizerConfig,
    validated: Result<(), String>,
    projector: TacotronGraphemeProjector,
    symbols: &[char],
    contract: &ModelInputContract,
    escaped: String,
    language: &str,
    tag: String,
)
    requires
        call_ensures(
            TacotronGraphemeProjector::from_config,
            (config, validated),
            Ok::<TacotronGraphemeProjector, String>(projector),
        ),
        call_ensures(TacotronGraphemeProjector::vocabulary, (&projector,), symbols),
        call_ensures(TacotronGraphemeProjector::contract, (&projector,), contract),
        call_ensures(escaped_unicode_text, (symbols,), escaped),
        config.phoneme_language matches Some(named) ==> named@ == language@,
        call_ensures(normalize_variety, (language,), tag),
    ensures
        contract.kind is Graphemes,
        contract.consumes.len() == 1 && contract.consumes@[0] is Text,
        contract.vocabulary_fingerprint@ == "tacotron-grapheme-v1:"@ + escaped@,
        contract.supported_varieties.len() == 1,
        config.phoneme_language is Some ==> contract.supported_varieties@[0]@ == tag@,
        config.phoneme_language is None ==> contract.supported_varieties@[0]@ == "*"@,
{
}

/// A contract is declared exactly where a projector would exist but for the check of the contract,
/// and it is the projector's.
pub proof fn declared_contracts_are_kept(
    config: &PhonemeTokenizerConfig,
    declared: Result<ModelInputContract, String>,
    out: Result<TacotronGraphemeProjector, String>,
    validated: Result<(), String>,
)
    requires
        call_ensures(declared_contract, (config,), declared),
        call_ensures(TacotronGraphemeProjector::from_config, (config, validated), out),
    ensures
        out is Ok <==> declared is Ok && validated is Ok,
        out matches Ok(projector) ==> (declared matches Ok(contract) && contract.kind
            == projector.input_contract().kind && contract.vocabulary_fingerprint@
            == projector.input_contract().vocabulary_fingerprint@ && contract.consumes@
            == projector.input_contract().consumes@ && contract.supported_varieties@[0]@
            == projector.input_contract().supported_varieties@[0]@),
{
}

proof fn words_without_space(text: Seq<char>)
    requires
        text.len() > 0,
        forall|i: int| 0 <= i < text.len() ==> !white_space(#[trigger] text[i]),
    ensures
        words(text) == seq![text],
    decreases text.len(),
{
    let before = text.drop_last();
    assert(!white_space(text[text.len() - 1]));
    if before.len() == 0 {
        assert(words(before) =~= Seq::<Seq<char>>::empty());
        assert(text =~= seq![text.last()]);
        assert(words(text) =~= seq![text]);
    } else {
        assert forall|i: int| 0 <= i < before.len() implies !white_space(#[trigger] before[i]) by {
            assert(!white_space(text[i]));
        }
        words_without_space(before);
        assert(!white_space(text[before.len() - 1]));
        assert(before.last() == text[before.len() - 1]);
        assert(before.push(text.last()) =~= text);
        assert(words(text) =~= seq![text]);
    }
}

proof fn words_after_space(space: char, text: Seq<char>)
    requires
        white_space(space),
    ensures
        words(seq![space] + text) == words(text),
    decreases text.len(),
{
    let spaced = seq![space] + text;
    if text.len() == 0 {
        assert(spaced.drop_last() =~= Seq::<char>::empty());
        assert(spaced.last() == space);
        assert(words(Seq::<char>::empty()) =~= Seq::<Seq<char>>::empty());
    } else {
        let before = text.drop_last();
        words_after_space(space, before);
        assert(spaced.drop_last() =~= seq![space] + before);
        assert(spaced.last() == text.last());
        if before.len() == 0 {
            assert((seq![space] + before).last() == space);
        } else {
            assert((seq![space] + before).last() == before.last());
        }
    }
}

/// A text without white space is read as it is.
pub proof fn single_words_are_read_as_they_are(
    projector: &TacotronGraphemeProjector,
    plan: &UtterancePlan,
    supported: Result<(), String>,
    tokens: PhonemeTokenIds,
)
    requires
        projector.wf(),
        call_ensures(
            TacotronGraphemeProjector::project,
            (projector, plan, supported),
            Ok::<PhonemeTokenIds, String>(tokens),
        ),
        plan.intended_text matches Some(text) && forall|i: int|
            0 <= i < text@.len() ==> !white_space(#[trigger] text@[i]),
    ensures
        plan.intended_text matches Some(text) && tokens.projected_symbols@ == text@,
{
    if let Some(text) = plan.intended_text {
        if text@.len() > 0 {
            words_without_space(text@);
        } else {
            assert(words(text@) =~= Seq::<Seq<char>>::empty());
            assert(respaced(text@).len() == 0);
        }
    }
}

/// White space ahead of a text changes nothing, and neither does white space behind it. A character
/// more is read behind what was read before it: next to it where no white space stood between, and
/// after one space where some did.
pub proof fn white_space_separates_words(
    projector: &TacotronGraphemeProjector,
    plan: &UtterancePlan,
    ahead: &UtterancePlan,
    longer: &UtterancePlan,
    c: char,
    supported: Result<(), String>,
    tokens: PhonemeTokenIds,
    tokens_ahead: Result<PhonemeTokenIds, String>,
    tokens_longer: Result<PhonemeTokenIds, String>,
)
    requires
        projector.wf(),
        call_ensures(
            TacotronGraphemeProjector::project,
            (projector, plan, supported),
            Ok::<PhonemeTokenIds, String>(tokens),
        ),
        call_ensures(
            TacotronGraphemeProjector::project,
            (projector, ahead, supported),
            tokens_ahead,
        ),
        call_ensures(
            TacotronGraphemeProjector::project,
            (projector, longer, supported),
            tokens_longer,
        ),
        plan.intended_text is Some && ahead.intended_text is Some && longer.intended_text is Some,
        ahead.intended_text->0@ == seq![c] + plan.intended_text->0@,
        longer.intended_text->0@ == plan.intended_text->0@.push(c),
    ensures
        white_space(c) ==> (tokens_ahead matches Ok(read) && read.projected_symbols@
            == tokens.projected_symbols@),
        white_space(c) ==> (tokens_longer matches Ok(read) && read.projected_symbols@
            == tokens.projected_symbols@),
        !white_space(c) ==> (tokens_longer matches Ok(read) ==> read.projected_symbols@
            == tokens.projected_symbols@ + (if white_space(plan.intended_text->0@.last()) {
            " "@
        } else {
            Seq::empty()
        }) + seq![c]),
{
    let text = plan.intended_text->0@;
    if white_space(c) {
        words_after_space(c, text);
    }
    let more = text.push(c);
    assert(more.drop_last() =~= text);
    assert(more.last() == c);
    let found = words(text);
    if text.len() == 0 {
        assert(found =~= Seq::<Seq<char>>::empty());
        assert(respaced(text).len() == 0);
    }
    if found.len() == 0 {
        assert(joined(found, " "@).len() == 0);
    }
    if !white_space(c) {
        words_are_filled(text);
        if white_space(text.last()) {
            joined_push(found, " "@, seq![c]);
            assert(respaced(more) =~= respaced(text) + " "@ + seq![c]);
        } else {
            joined_extend(found, " "@, c);
            assert(respaced(more) =~= respaced(text) + Seq::<char>::empty() + seq![c]);
        }
    }
}

proof fn unknown_is_found(text: Seq<char>, symbols: Seq<char>)
    ensures
        first_unknown(text, symbols) is None <==> forall|i: int|
            0 <= i < text.len() ==> symbols.contains(#[trigger] text[i]),
    decreases text.len(),
{
    if text.len() > 0 {
        let before = text.drop_last();
        unknown_is_found(before, symbols);
        if first_unknown(text, symbols) is None {
            assert forall|i: int| 0 <= i < text.len() implies symbols.contains(
                #[trigger] text[i],
            ) by {
                if i < before.len() {
                    assert(symbols.contains(before[i]));
                }
            }
        } else if first_unknown(before, symbols) is Some {
            let i = choose|i: int|
                0 <= i < before.len() && !symbols.contains(#[trigger] before[i]);
            assert(text[i] == before[i]);
        } else {
            assert(!symbols.contains(text[text.len() - 1]));
        }
    }
}

/// A plan is read exactly where the contract supports it and it has a text with a word whose
/// characters, once respaced, are all symbols. Every number stands for the symbol at its place.
pub proof fn plans_are_read_on_their_merits(
    projector: &TacotronGraphemeProjector,
    plan: &UtterancePlan,
    supported: Result<(), String>,
    symbols: &[char],
    out: Result<PhonemeTokenIds, String>,
)
    requires
        projector.wf(),
        call_ensures(TacotronGraphemeProjector::vocabulary, (projector,), symbols),
        call_ensures(TacotronGraphemeProjector::project, (projector, plan, supported), out),
    ensures
        out is Ok <==> supported is Ok && (plan.intended_text matches Some(text) && respaced(
            text@,
        ).len() > 0 && forall|i: int|
            0 <= i < respaced(text@).len() ==> symbols@.contains(#[trigger] respaced(text@)[i])),
        supported matches Err(reason) ==> (out matches Err(message) && message@ == reason@),
        out matches Ok(tokens) ==> tokens.ids.len() == tokens.projected_symbols@.len()
            && tokens.ids.len() > 0 && forall|i: int|
            0 <= i < tokens.ids.len() ==> 0 <= #[trigger] tokens.ids@[i] < symbols@.len()
                && symbols@[tokens.ids@[i] as int] == tokens.projected_symbols@[i],
{
    if let Some(text) = plan.intended_text {
        unknown_is_found(respaced(text@), symbols@);
    }
}

} // verus!
