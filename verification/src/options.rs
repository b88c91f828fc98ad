//! The options that an engine declares during the handshake, and the parser
//! of their declaration lines.
//!
//! A declaration has the shape
//! `option name <words> type <kind> [default <v>] [min <n>] [max <n>]`.
//! The words of the name run up to the first field keyword; the kind decides
//! how the rest is read.

use crate::decimal::{decimal_i64, decimal_text, law_decimal_round_trip, parse_i64};
use crate::text::{
    is_space, is_word, join_words, law_tokens_of_joined_words, lemma_tokens_ignore_final_space,
    same_text, split_whitespace, texts, tokens,
};
use vstd::prelude::*;
use vstd::string::StringExecFns;

verus! {

/// Why a declaration line was rejected.
#[derive(Debug, Clone, Copy, PartialEq, Eq, Structural)]
pub enum OptionError {
    /// The line does not start with the token `option`.
    NotAnOption,
    /// The second token is not `name`.
    NameExpected,
    /// `default`, `min`, `max` or `var` stands where `type` was expected.
    KeywordBeforeType,
    /// The line has no `type` keyword, or nothing follows it.
    TypeMissing,
    /// The kind is none of `check`, `spin`, `button` and `string`.
    UnsupportedType,
    /// A `check` option is not followed by `default true` or `default false`.
    BadCheck,
    /// A `spin` option's fields are not pairs of `default`, `min` or `max`
    /// and a 64-bit integer.
    BadSpin,
    /// A `spin` option lacks one of `default`, `min` and `max`.
    SpinIncomplete,
    /// A `spin` option's default lies outside its bounds.
    SpinOutOfBounds,
}

/// The kind of an option, with the values that its declaration gave.
#[derive(Debug, Clone, PartialEq, Eq)]
#[allow(inconsistent_fields)]
pub enum Data {
    /// A switch.
    Check { value: bool },
    /// An integer within bounds.
    Spin { value: i64, min: i64, max: i64 },
    /// One of several named choices.
    Combo { value: String, options: Vec<String> },
    /// A command without a value.
    Button,
    /// Free text.
    String { value: String },
}

/// One option that the engine declared.
#[derive(Debug, Clone, PartialEq, Eq)]
pub struct Option {
    /// The option's name: its words, one space between two.
    pub name: String,
    /// Its kind and values.
    pub data: Data,
}

/// What a `Data` holds, as mathematical values.
#[allow(inconsistent_fields)]
pub enum DataView {
    Check { value: bool },
    Spin { value: i64, min: i64, max: i64 },
    Combo { value: Seq<char>, options: Seq<Seq<char>> },
    Button,
    String { value: Seq<char> },
}

/// What an `Option` holds, as mathematical values.
pub struct OptionView {
    pub name: Seq<char>,
    pub data: DataView,
}

impl View for Data {
    type V = DataView;

    open spec fn view(&self) -> DataView {
        match self {
            Data::Check { value } => DataView::Check { value: *value },
            Data::Spin { value, min, max } => DataView::Spin { value: *value, min: *min, max: *max },
            Data::Combo { value, options } => DataView::Combo {
                value: value@,
                options: texts(options@),
            },
            Data::Button => DataView::Button,
            Data::String { value } => DataView::String { value: value@ },
        }
    }
}

impl View for Option {
    type V = OptionView;

    open spec fn view(&self) -> OptionView {
        OptionView { name: self.name@, data: self.data@ }
    }
}

impl DataView {
    /// A spin option's default lies within its bounds.
    pub open spec fn well_formed(self) -> bool {
        self matches DataView::Spin { value, min, max } ==> min <= value <= max
    }
}

/// The fields of a `spin` option that have been read so far.
#[derive(Debug, Clone, Copy, PartialEq, Eq, Structural)]
pub struct SpinFields {
    pub value: core::option::Option<i64>,
    pub min: core::option::Option<i64>,
    pub max: core::option::Option<i64>,
}

/// The five keywords that end an option's name.
pub open spec fn is_field_keyword(t: Seq<char>) -> bool {
    t == "type"@ || t == "default"@ || t == "min"@ || t == "max"@ || t == "var"@
}

/// Where the name that starts at token `i` ends: the index of the first
/// field keyword at or after `i`, or the number of tokens.
pub open spec fn name_end(t: Seq<Seq<char>>, i: int) -> int
    decreases t.len() - i,
{
    if 0 <= i < t.len() && !is_field_keyword(t[i]) {
        name_end(t, i + 1)
    } else {
        i
    }
}

/// A `check` option's value: the tokens after the kind must start with
/// `default true` or `default false`.
pub open spec fn check_of_tokens(rest: Seq<Seq<char>>) -> Result<DataView, OptionError> {
    if rest.len() >= 2 && rest[0] == "default"@ && rest[1] == "true"@ {
        Ok(DataView::Check { value: true })
    } else if rest.len() >= 2 && rest[0] == "default"@ && rest[1] == "false"@ {
        Ok(DataView::Check { value: false })
    } else {
        Err(OptionError::BadCheck)
    }
}

/// The fields of a `spin` option: `rest`, from token `i` on, is read two
/// tokens at a time, a keyword and an integer, into `acc`; a later pair
/// replaces an earlier one of the same keyword. `None` where a keyword has
/// no value, is none of the three, or its value is no 64-bit integer.
pub open spec fn spin_fields_from(
    rest: Seq<Seq<char>>,
    i: int,
    acc: SpinFields,
) -> core::option::Option<SpinFields>
    decreases rest.len() - i,
{
    if i < 0 || i >= rest.len() {
        Some(acc)
    } else if i + 1 >= rest.len() {
        None
    } else {
        match decimal_i64(rest[i + 1]) {
            None => None,
            Some(v) => if rest[i] == "default"@ {
                spin_fields_from(rest, i + 2, SpinFields { value: Some(v), ..acc })
            } else if rest[i] == "min"@ {
                spin_fields_from(rest, i + 2, SpinFields { min: Some(v), ..acc })
            } else if rest[i] == "max"@ {
                spin_fields_from(rest, i + 2, SpinFields { max: Some(v), ..acc })
            } else {
                None
            },
        }
    }
}

/// A `spin` option's values: all three fields must be given, and the default
/// must lie within the bounds.
pub open spec fn spin_of_tokens(rest: Seq<Seq<char>>) -> Result<DataView, OptionError> {
    match spin_fields_from(rest, 0, SpinFields { value: None, min: None, max: None }) {
        None => Err(OptionError::BadSpin),
        Some(f) => match (f.value, f.min, f.max) {
            (Some(value), Some(min), Some(max)) => if min <= value <= max {
                Ok(DataView::Spin { value, min, max })
            } else {
                Err(OptionError::SpinOutOfBounds)
            },
            _ => Err(OptionError::SpinIncomplete),
        },
    }
}

/// A `string` option's default: the words after `default`, one space
/// between two; empty where no `default` follows the kind.
pub open spec fn string_default(rest: Seq<Seq<char>>) -> Seq<char> {
    if rest.len() >= 1 && rest[0] == "default"@ {
        join_words(rest.subrange(1, rest.len() as int))
    } else {
        Seq::empty()
    }
}

/// The kind and values that the tokens `t` declare, `t` starting at `type`.
pub open spec fn data_of_tokens(t: Seq<Seq<char>>) -> Result<DataView, OptionError> {
    if t.len() < 2 || t[0] != "type"@ {
        Err(OptionError::TypeMissing)
    } else if t[1] == "check"@ {
        check_of_tokens(t.subrange(2, t.len() as int))
    } else if t[1] == "spin"@ {
        spin_of_tokens(t.subrange(2, t.len() as int))
    } else if t[1] == "button"@ {
        Ok(DataView::Button)
    } else if t[1] == "string"@ {
        Ok(DataView::String { value: string_default(t.subrange(2, t.len() as int)) })
    } else {
        Err(OptionError::UnsupportedType)
    }
}

/// The option that the tokens `t` of one line declare.
pub open spec fn option_of_tokens(t: Seq<Seq<char>>) -> Result<OptionView, OptionError> {
    if t.len() < 1 || t[0] != "option"@ {
        Err(OptionError::NotAnOption)
    } else if t.len() < 2 || t[1] != "name"@ {
        Err(OptionError::NameExpected)
    } else {
        let k = name_end(t, 2);
        if k >= t.len() {
            Err(OptionError::TypeMissing)
        } else if t[k] != "type"@ {
            Err(OptionError::KeywordBeforeType)
        } else {
            match data_of_tokens(t.subrange(k, t.len() as int)) {
                Ok(data) => Ok(OptionView { name: join_words(t.subrange(2, k)), data }),
                Err(e) => Err(e),
            }
        }
    }
}

/// The option that the line `raw` declares.
pub open spec fn option_of_line(raw: Seq<char>) -> Result<OptionView, OptionError> {
    option_of_tokens(tokens(raw))
}

/// The mathematical value of a parsed kind, or the error.
pub open spec fn data_result_view(r: Result<Data, OptionError>) -> Result<DataView, OptionError> {
    match r {
        Ok(d) => Ok(d@),
        Err(e) => Err(e),
    }
}

/// The mathematical value of a parsed option, or the error.
pub open spec fn option_result_view(r: Result<Option, OptionError>) -> Result<
    OptionView,
    OptionError,
> {
    match r {
        Ok(o) => Ok(o@),
        Err(e) => Err(e),
    }
}

/// Tells whether `token` is the word `word`.
fn reads(token: &String, word: &str) -> (r: bool)
    ensures
        r == (token@ == word@),
{
    same_text(token.as_str(), word)
}

/// Tells whether `token` ends an option's name.
fn ends_name(token: &String) -> (r: bool)
    ensures
        r == is_field_keyword(token@),
{
    reads(token, "type") || reads(token, "default") || reads(token, "min") || reads(
        token,
        "max",
    ) || reads(token, "var")
}

/// Joins `words` with one space between two.
fn join(words: &[String]) -> (r: String)
    ensures
        r@ == join_words(texts(words@)),
{
    let mut out = String::new();
    let mut i: usize = 0;
    let ghost all = texts(words@);
    assert(all.take(0) =~= Seq::<Seq<char>>::empty());
    while i < words.len()
        invariant
            i <= words.len(),
            all == texts(words@),
            out@ == join_words(all.take(i as int)),
        decreases words.len() - i,
    {
        proof {
            reveal_strlit(" ");
            assert(" "@ =~= seq![' ']);
            assert(all.take(i + 1).drop_last() =~= all.take(i as int));
            assert(all.take(i + 1).last() == words@[i as int]@);
            if i == 0 {
                assert(Seq::<char>::empty() + words@[0]@ =~= words@[0]@);
            }
        }
        if i > 0 {
            out.append(" ");
        }
        out.append(words[i].as_str());
        i += 1;
    }
    assert(all.take(words.len() as int) =~= all);
    out
}

impl Data {
    /// Reads an option's kind and values from `tokens`, which start at the
    /// keyword `type`.
    pub fn parse(tokens: &[String]) -> (r: Result<Data, OptionError>)
        ensures
            data_result_view(r) == data_of_tokens(texts(tokens@)),
            r matches Ok(d) ==> d@.well_formed(),
    {
        let n = tokens.len();
        if n < 2 || !reads(&tokens[0], "type") {
            return Err(OptionError::TypeMissing);
        }
        let rest = &tokens[2..n];
        assert(texts(rest@) =~= texts(tokens@).subrange(2, n as int));
        let kind = &tokens[1];
        if reads(kind, "check") {
            Data::parse_check(rest)
        } else if reads(kind, "spin") {
            Data::parse_spin(rest)
        } else if reads(kind, "button") {
            Ok(Data::Button)
        } else if reads(kind, "string") {
            if rest.len() >= 1 && reads(&rest[0], "default") {
                let words = &rest[1..rest.len()];
                assert(texts(words@) =~= texts(rest@).subrange(1, rest.len() as int));
                Ok(Data::String { value: join(words) })
            } else {
                Ok(Data::String { value: String::new() })
            }
        } else {
            Err(OptionError::UnsupportedType)
        }
    }

    /// Reads a `check` option's value from the tokens after the kind.
    pub fn parse_check(rest: &[String]) -> (r: Result<Data, OptionError>)
        ensures
            data_result_view(r) == check_of_tokens(texts(rest@)),
    {
        if rest.len() >= 2 && reads(&rest[0], "default") {
            if reads(&rest[1], "true") {
                return Ok(Data::Check { value: true });
            }
            if reads(&rest[1], "false") {
                return Ok(Data::Check { value: false });
            }
        }
        Err(OptionError::BadCheck)
    }

    /// Reads a `spin` option's values from the tokens after the kind.
    pub fn parse_spin(rest: &[String]) -> (r: Result<Data, OptionError>)
        ensures
            data_result_view(r) == spin_of_tokens(texts(rest@)),
            r matches Ok(d) ==> d@.well_formed(),
    {
        let ghost t = texts(rest@);
        let ghost start = SpinFields { value: None, min: None, max: None };
        let mut acc = SpinFields { value: None, min: None, max: None };
        let n = rest.len();
        let mut i: usize = 0;
        while i < n
            invariant
                i <= n,
                n == rest.len(),
                t == texts(rest@),
                t.len() == n,
                start == (SpinFields { value: None, min: None, max: None }),
                spin_fields_from(t, i as int, acc) == spin_fields_from(t, 0, start),
            decreases n - i,
        {
            if n - i < 2 {
                return Err(OptionError::BadSpin);
            }
            let v = match parse_i64(rest[i + 1].as_str()) {
                Some(v) => v,
                None => {
                    return Err(OptionError::BadSpin);
                },
            };
            let key = &rest[i];
            if reads(key, "default") {
                acc = SpinFields { value: Some(v), min: acc.min, max: acc.max };
            } else if reads(key, "min") {
                acc = SpinFields { value: acc.value, min: Some(v), max: acc.max };
            } else if reads(key, "max") {
                acc = SpinFields { value: acc.value, min: acc.min, max: Some(v) };
            } else {
                return Err(OptionError::BadSpin);
            }
            i += 2;
        }
        match (acc.value, acc.min, acc.max) {
            (Some(value), Some(min), Some(max)) => {
                if min <= value && value <= max {
                    Ok(Data::Spin { value, min, max })
                } else {
                    Err(OptionError::SpinOutOfBounds)
                }
            },
            _ => Err(OptionError::SpinIncomplete),
        }
    }
}

impl Option {
    /// Reads one declaration line.
    ///
    /// The line is split at whitespace. After `option name`, the words up
    /// to the first field keyword make the name; that keyword must be
    /// `type`, and the kind after it decides how the rest is read.
    pub fn parse(raw: &str) -> (r: Result<Option, OptionError>)
        ensures
            option_result_view(r) == option_of_line(raw@),
            r matches Ok(o) ==> o@.data.well_formed(),
    {
        let tokens = split_whitespace(raw);
        let n = tokens.len();
        let ghost t = texts(tokens@);
        if n < 1 || !reads(&tokens[0], "option") {
            return Err(OptionError::NotAnOption);
        }
        if n < 2 || !reads(&tokens[1], "name") {
            return Err(OptionError::NameExpected);
        }
        let mut k: usize = 2;
        while k < n && !ends_name(&tokens[k])
            invariant
                2 <= k <= n,
                n == tokens.len(),
                t == texts(tokens@),
                name_end(t, k as int) == name_end(t, 2),
            decreases n - k,
        {
            k += 1;
        }
        if k >= n {
            return Err(OptionError::TypeMissing);
        }
        if !reads(&tokens[k], "type") {
            return Err(OptionError::KeywordBeforeType);
        }
        let words = &tokens.as_slice()[2..k];
        let fields = &tokens.as_slice()[k..n];
        assert(texts(words@) =~= t.subrange(2, k as int));
        assert(texts(fields@) =~= t.subrange(k as int, n as int));
        match Data::parse(fields) {
            Ok(data) => Ok(Option { name: join(words), data }),
            Err(e) => Err(e),
        }
    }
}

/// Tells whether `words` can be the name of a declared option: each is a
/// token, and none is a field keyword.
pub open spec fn is_name(words: Seq<Seq<char>>) -> bool {
    forall|i: int|
        0 <= i < words.len() ==> is_word(#[trigger] words[i]) && !is_field_keyword(words[i])
}

/// The tokens of a declaration: `option name`, the words of the name,
/// `type`, then the kind and its fields.
pub open spec fn declaration(name: Seq<Seq<char>>, fields: Seq<Seq<char>>) -> Seq<Seq<char>> {
    seq!["option"@, "name"@] + name + seq!["type"@] + fields
}

/// The kind and fields of a `spin` declaration.
pub open spec fn spin_declared(value: i64, min: i64, max: i64) -> Seq<Seq<char>> {
    seq![
        "spin"@,
        "default"@,
        decimal_text(value as int),
        "min"@,
        decimal_text(min as int),
        "max"@,
        decimal_text(max as int),
    ]
}

/// The kind and fields of a `check` declaration.
pub open spec fn check_declared(value: bool) -> Seq<Seq<char>> {
    seq!["check"@, "default"@, if value {
        "true"@
    } else {
        "false"@
    }]
}

/// The kind and fields of a `string` declaration.
pub open spec fn string_declared(default: Seq<Seq<char>>) -> Seq<Seq<char>> {
    seq!["string"@, "default"@] + default
}

/// What the words of the protocol are made of: each is a token, and those
/// that stand in the same place differ.
pub proof fn lemma_protocol_words()
    ensures
        is_word("option"@),
        is_word("name"@),
        is_word("type"@),
        is_word("default"@),
        is_word("min"@),
        is_word("max"@),
        is_word("check"@),
        is_word("spin"@),
        is_word("button"@),
        is_word("string"@),
        is_word("true"@),
        is_word("false"@),
        "min"@ != "max"@,
        "min"@ != "default"@,
        "max"@ != "default"@,
        "spin"@ != "check"@,
        "button"@ != "check"@,
        "button"@ != "spin"@,
        "string"@ != "check"@,
        "string"@ != "spin"@,
        "string"@ != "button"@,
        "false"@ != "true"@,
{
    reveal_strlit("option");
    reveal_strlit("name");
    reveal_strlit("type");
    reveal_strlit("default");
    reveal_strlit("min");
    reveal_strlit("max");
    reveal_strlit("check");
    reveal_strlit("spin");
    reveal_strlit("button");
    reveal_strlit("string");
    reveal_strlit("true");
    reveal_strlit("false");
    assert("min"@[1] != "max"@[1]);
    assert("string"@[1] != "button"@[1]);
}

/// `name_end(t, i)` is the only index `j` from `i` on that is reached over
/// tokens that are no field keywords and holds one or ends `t`.
pub proof fn lemma_name_end_is(t: Seq<Seq<char>>, i: int, j: int)
    requires
        0 <= i <= j <= t.len(),
        forall|k: int| i <= k < j ==> !is_field_keyword(#[trigger] t[k]),
        j == t.len() || is_field_keyword(t[j]),
    ensures
        name_end(t, i) == j,
    decreases j - i,
{
    if i < j {
        lemma_name_end_is(t, i + 1, j);
    }
}

/// The front of a declaration reads as its name; what the declaration
/// stands for is decided by its kind and fields.
pub proof fn lemma_declaration(name: Seq<Seq<char>>, fields: Seq<Seq<char>>)
    requires
        is_name(name),
    ensures
        option_of_tokens(declaration(name, fields)) == match data_of_tokens(
            seq!["type"@] + fields,
        ) {
            Ok(data) => Ok(OptionView { name: join_words(name), data }),
            Err(e) => Err::<OptionView, OptionError>(e),
        },
{
    let t = declaration(name, fields);
    let k = 2 + name.len() as int;
    assert(t[0] == "option"@);
    assert(t[1] == "name"@);
    assert(t[k] == "type"@);
    assert forall|i: int| 2 <= i < k implies !is_field_keyword(#[trigger] t[i]) by {
        assert(t[i] == name[i - 2]);
    }
    lemma_name_end_is(t, 2, k);
    assert(t.subrange(2, k) =~= name);
    assert(t.subrange(k, t.len() as int) =~= seq!["type"@] + fields);
}

/// A declaration written with single spaces reads as its tokens, where each
/// of them is a token.
pub proof fn lemma_declaration_line(name: Seq<Seq<char>>, fields: Seq<Seq<char>>)
    requires
        is_name(name),
        forall|i: int| 0 <= i < fields.len() ==> is_word(#[trigger] fields[i]),
    ensures
        option_of_line(join_words(declaration(name, fields))) == option_of_tokens(
            declaration(name, fields),
        ),
{
    let t = declaration(name, fields);
    lemma_protocol_words();
    assert forall|i: int| 0 <= i < t.len() implies is_word(#[trigger] t[i]) by {
        if i < 2 {
        } else if i < 2 + name.len() {
            assert(t[i] == name[i - 2]);
        } else if i == 2 + name.len() {
        } else {
            assert(t[i] == fields[i - 3 - name.len()]);
        }
    }
    law_tokens_of_joined_words(t);
}

/// Parsing gives a `spin` declaration back: whatever the name and the three
/// values, the default within the bounds, the declaration reads as an option
/// of that name with exactly those values, as tokens and as a line.
pub proof fn law_spin_round_trip(name: Seq<Seq<char>>, value: i64, min: i64, max: i64)
    requires
        is_name(name),
        min <= value <= max,
    ensures
        option_of_tokens(declaration(name, spin_declared(value, min, max))) == Ok::<
            OptionView,
            OptionError,
        >(OptionView { name: join_words(name), data: DataView::Spin { value, min, max } }),
        option_of_line(join_words(declaration(name, spin_declared(value, min, max))))
            == option_of_tokens(declaration(name, spin_declared(value, min, max))),
{
    let fields = spin_declared(value, min, max);
    let t = seq!["type"@] + fields;
    let rest = t.subrange(2, t.len() as int);
    lemma_protocol_words();
    law_decimal_round_trip(value as int);
    law_decimal_round_trip(min as int);
    law_decimal_round_trip(max as int);
    lemma_declaration(name, fields);
    lemma_declaration_line(name, fields);
    assert(t[1] == "spin"@);
    assert(rest =~= seq![
        "default"@,
        decimal_text(value as int),
        "min"@,
        decimal_text(min as int),
        "max"@,
        decimal_text(max as int),
    ]);
    let f0 = SpinFields { value: None, min: None, max: None };
    let f1 = SpinFields { value: Some(value), ..f0 };
    let f2 = SpinFields { min: Some(min), ..f1 };
    let f3 = SpinFields { max: Some(max), ..f2 };
    assert(spin_fields_from(rest, 6, f3) == Some(f3));
    assert(spin_fields_from(rest, 4, f2) == Some(f3));
    assert(spin_fields_from(rest, 2, f1) == Some(f3));
    assert(spin_fields_from(rest, 0, f0) == Some(f3));
}

/// Parsing gives a `check` declaration back.
pub proof fn law_check_round_trip(name: Seq<Seq<char>>, value: bool)
    requires
        is_name(name),
    ensures
        option_of_tokens(declaration(name, check_declared(value))) == Ok::<OptionView, OptionError>(
            OptionView { name: join_words(name), data: DataView::Check { value } },
        ),
        option_of_line(join_words(declaration(name, check_declared(value)))) == option_of_tokens(
            declaration(name, check_declared(value)),
        ),
{
    let fields = check_declared(value);
    let t = seq!["type"@] + fields;
    lemma_protocol_words();
    lemma_declaration(name, fields);
    lemma_declaration_line(name, fields);
    assert(t[1] == "check"@);
    assert(t.subrange(2, t.len() as int) =~= seq!["default"@, fields[2]]);
}

/// Parsing gives a `button` declaration back.
pub proof fn law_button_round_trip(name: Seq<Seq<char>>)
    requires
        is_name(name),
    ensures
        option_of_tokens(declaration(name, seq!["button"@])) == Ok::<OptionView, OptionError>(
            OptionView { name: join_words(name), data: DataView::Button },
        ),
        option_of_line(join_words(declaration(name, seq!["button"@]))) == option_of_tokens(
            declaration(name, seq!["button"@]),
        ),
{
    let fields = seq!["button"@];
    let t = seq!["type"@] + fields;
    lemma_protocol_words();
    lemma_declaration(name, fields);
    lemma_declaration_line(name, fields);
    assert(t[1] == "button"@);
}

/// Parsing gives a `string` declaration back: the default reads as its
/// words with one space between two.
pub proof fn law_string_round_trip(name: Seq<Seq<char>>, default: Seq<Seq<char>>)
    requires
        is_name(name),
        forall|i: int| 0 <= i < default.len() ==> is_word(#[trigger] default[i]),
    ensures
        option_of_tokens(declaration(name, string_declared(default))) == Ok::<
            OptionView,
            OptionError,
        >(OptionView { name: join_words(name), data: DataView::String { value: join_words(default) } }),
        option_of_line(join_words(declaration(name, string_declared(default))))
            == option_of_tokens(declaration(name, string_declared(default))),
{
    let fields = string_declared(default);
    let t = seq!["type"@] + fields;
    let rest = t.subrange(2, t.len() as int);
    lemma_protocol_words();
    lemma_declaration(name, fields);
    assert forall|i: int| 0 <= i < fields.len() implies is_word(#[trigger] fields[i]) by {
        if i >= 2 {
            assert(fields[i] == default[i - 2]);
        }
    }
    lemma_declaration_line(name, fields);
    assert(t[1] == "string"@);
    assert(rest[0] == "default"@);
    assert(rest.subrange(1, rest.len() as int) =~= default);
}

/// Whitespace at the end of a line, such as the line feed that ends it,
/// changes nothing of what the line declares.
pub proof fn law_final_space_is_ignored(raw: Seq<char>, c: char)
    requires
        is_space(c),
    ensures
        option_of_line(raw.push(c)) == option_of_line(raw),
        is_space('\n'),
{
    lemma_tokens_ignore_final_space(raw, c, 0);
}

/// A malformed line is rejected, never read in part: without `option name`
/// at the front there is no option, and neither is there one where the kind
/// is none of the four that are read.
pub proof fn law_malformed_rejected(t: Seq<Seq<char>>, name: Seq<Seq<char>>, fields: Seq<Seq<char>>)
    requires
        is_name(name),
    ensures
        t.len() < 2 || t[0] != "option"@ || t[1] != "name"@ ==> option_of_tokens(t) is Err,
        fields.len() == 0 ==> option_of_tokens(declaration(name, fields)) == Err::<
            OptionView,
            OptionError,
        >(OptionError::TypeMissing),
        fields.len() > 0 && fields[0] != "check"@ && fields[0] != "spin"@ && fields[0] != "button"@
            && fields[0] != "string"@ ==> option_of_tokens(declaration(name, fields)) == Err::<
            OptionView,
            OptionError,
        >(OptionError::UnsupportedType),
{
    lemma_declaration(name, fields);
    let d = seq!["type"@] + fields;
    if fields.len() > 0 {
        assert(d[1] == fields[0]);
    }
}

/// An option that was read is well formed: the default of a `spin` option
/// lies within its bounds.
pub proof fn law_parsed_options_are_well_formed(t: Seq<Seq<char>>)
    ensures
        option_of_tokens(t) matches Ok(o) ==> o.data.well_formed(),
{
}

} // verus!
