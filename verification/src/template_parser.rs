//! Parser for the Second Life `message_template.msg` format.
//!
//! The template is read line by line; every line is trimmed, blank lines and
//! lines starting with `//` or `version` are skipped, and the remaining lines
//! drive a small state machine (top level, inside a message, inside a block)
//! whose nesting is tracked by a brace depth.

use vstd::prelude::*;
use crate::text::{lemma_parse_u32_dec, is_ws, lemma_join_split_single_spaced, lemma_split_ws_skip, lemma_split_ws_word, lemma_suffix_len_is, single_spaced, ws_pred, chars_of, chars_eq, copy_range, has_char, has_prefix, has_suffix, join_from, parse_u32_radix, push_chars, push_dec, split_whitespace, string_of, trim_char_ends, trim_range, vv, IntErrorKind, lemma_prefix_len_is, dec, eq_pred, int_error_text, join, lemma_prefix_len_bound, ne_pred, parse_u32_spec, prefix_len, split_ws, starts_with, ends_with, trim, trim_end_by, trim_start_by};

verus! {

/// How often a message is sent; determines the width of its ID on the wire.
#[derive(Debug, Clone, Copy, PartialEq, Eq)]
pub enum Frequency {
    High,
    Medium,
    Low,
    Fixed,
}

/// Whether a message may only be sent between trusted servers.
#[derive(Debug, Clone, Copy, PartialEq, Eq)]
pub enum TrustLevel {
    NotTrusted,
    Trusted,
}

/// Whether a message body is zero-coded on the wire.
#[derive(Debug, Clone, Copy, PartialEq, Eq)]
pub enum Encoding {
    Unencoded,
    Zerocoded,
}

/// How many instances of a block a message carries.
#[derive(Debug, Clone, Copy, PartialEq, Eq)]
pub enum Cardinality {
    Single,
    Multiple,
    Variable,
}

/// One field of a block: its name and its type as written in the template.
#[derive(Debug, Clone, PartialEq)]
pub struct FieldDefinition {
    pub name: String,
    pub field_type: String,
}

/// One block of a message.
#[derive(Debug, Clone, PartialEq)]
pub struct BlockDefinition {
    pub name: String,
    pub cardinality: Cardinality,
    /// The repeat count of a `Multiple` block.
    pub count: Option<u32>,
    pub fields: Vec<FieldDefinition>,
}

/// One message of the template.
#[derive(Debug, Clone, PartialEq)]
pub struct MessageDefinition {
    pub name: String,
    pub frequency: Frequency,
    pub id: u32,
    pub trust: TrustLevel,
    pub encoding: Encoding,
    /// Additional flags after the encoding, such as `UDPBlackListed`.
    pub flags: Vec<String>,
    pub blocks: Vec<BlockDefinition>,
}

/// A parsed template.
#[derive(Debug, Clone, PartialEq)]
pub struct MessageTemplate {
    pub messages: Vec<MessageDefinition>,
}

/// Mathematical model of a field definition.
pub struct FieldView {
    pub name: Seq<char>,
    pub field_type: Seq<char>,
}

/// Mathematical model of a block definition.
pub struct BlockView {
    pub name: Seq<char>,
    pub cardinality: Cardinality,
    pub count: Option<u32>,
    pub fields: Seq<FieldView>,
}

/// Mathematical model of a message definition.
pub struct MessageView {
    pub name: Seq<char>,
    pub frequency: Frequency,
    pub id: u32,
    pub trust: TrustLevel,
    pub encoding: Encoding,
    pub flags: Seq<Seq<char>>,
    pub blocks: Seq<BlockView>,
}

impl View for FieldDefinition {
    type V = FieldView;

    open spec fn view(&self) -> FieldView {
        FieldView { name: self.name@, field_type: self.field_type@ }
    }
}

impl View for BlockDefinition {
    type V = BlockView;

    open spec fn view(&self) -> BlockView {
        BlockView {
            name: self.name@,
            cardinality: self.cardinality,
            count: self.count,
            fields: self.fields@.map_values(|f: FieldDefinition| f@),
        }
    }
}

impl View for MessageDefinition {
    type V = MessageView;

    open spec fn view(&self) -> MessageView {
        MessageView {
            name: self.name@,
            frequency: self.frequency,
            id: self.id,
            trust: self.trust,
            encoding: self.encoding,
            flags: self.flags@.map_values(|s: String| s@),
            blocks: self.blocks@.map_values(|b: BlockDefinition| b@),
        }
    }
}

impl View for MessageTemplate {
    type V = Seq<MessageView>;

    open spec fn view(&self) -> Seq<MessageView> {
        self.messages@.map_values(|m: MessageDefinition| m@)
    }
}

/// Where the line-oriented parser stands.
#[derive(Debug, Clone, Copy, PartialEq, Eq)]
pub enum ParseState {
    TopLevel,
    InMessage,
    InBlock,
}

/// Everything the parser carries from one line to the next.
pub struct PState {
    pub messages: Seq<MessageView>,
    pub mode: ParseState,
    pub message: Option<MessageView>,
    pub block: Option<BlockView>,
    pub depth: int,
}

/// The brace depth that each parser state implies.
pub open spec fn pstate_wf(st: PState) -> bool {
    match st.mode {
        ParseState::TopLevel => st.depth == 0,
        ParseState::InMessage => st.depth == 1,
        ParseState::InBlock => st.depth >= 2,
    }
}

/// `<Frequency as FromStr>::from_str`.
pub open spec fn frequency_spec(s: Seq<char>) -> Result<Frequency, Seq<char>> {
    if s == "High"@ {
        Ok(Frequency::High)
    } else if s == "Medium"@ {
        Ok(Frequency::Medium)
    } else if s == "Low"@ {
        Ok(Frequency::Low)
    } else if s == "Fixed"@ {
        Ok(Frequency::Fixed)
    } else {
        Err("Unknown frequency: "@ + s)
    }
}

/// `<TrustLevel as FromStr>::from_str`.
pub open spec fn trust_spec(s: Seq<char>) -> Result<TrustLevel, Seq<char>> {
    if s == "NotTrusted"@ {
        Ok(TrustLevel::NotTrusted)
    } else if s == "Trusted"@ {
        Ok(TrustLevel::Trusted)
    } else {
        Err("Unknown trust level: "@ + s)
    }
}

/// `<Encoding as FromStr>::from_str`.
pub open spec fn encoding_spec(s: Seq<char>) -> Result<Encoding, Seq<char>> {
    if s == "Unencoded"@ {
        Ok(Encoding::Unencoded)
    } else if s == "Zerocoded"@ {
        Ok(Encoding::Zerocoded)
    } else {
        Err("Unknown encoding: "@ + s)
    }
}

/// `<Cardinality as FromStr>::from_str`.
pub open spec fn cardinality_spec(s: Seq<char>) -> Result<Cardinality, Seq<char>> {
    if s == "Single"@ {
        Ok(Cardinality::Single)
    } else if s == "Multiple"@ {
        Ok(Cardinality::Multiple)
    } else if s == "Variable"@ {
        Ok(Cardinality::Variable)
    } else {
        Err("Unknown cardinality: "@ + s)
    }
}

/// An error message that names a line: `prefix`, the line number, then `rest`.
pub open spec fn line_err(prefix: Seq<char>, n: nat, rest: Seq<char>) -> Seq<char> {
    prefix + dec(n) + rest
}

/// The ID field of a message header, decimal or `0x`/`0X` hexadecimal.
pub open spec fn message_id_spec(tok: Seq<char>, n: nat) -> Result<u32, Seq<char>> {
    if starts_with(tok, "0x"@) || starts_with(tok, "0X"@) {
        match parse_u32_spec(tok.skip(2), 16) {
            Ok(v) => Ok(v as u32),
            Err(k) => Err(
                line_err("Error parsing hex message ID at line "@, n, ": "@ + int_error_text(k)),
            ),
        }
    } else {
        match parse_u32_spec(tok, 10) {
            Ok(v) => Ok(v as u32),
            Err(k) => Err(
                line_err("Error parsing message ID at line "@, n, ": "@ + int_error_text(k)),
            ),
        }
    }
}

/// A message header line: `Name Frequency ID Trust Encoding [flags...]`.
pub open spec fn header_step(st: PState, line: Seq<char>, n: nat) -> Result<PState, Seq<char>> {
    let parts = split_ws(line);
    if parts.len() < 5 {
        Err(
            line_err(
                "Invalid message header at line "@,
                n,
                ": expected at least 5 parts, got "@ + dec(parts.len()),
            ),
        )
    } else {
        match frequency_spec(parts[1]) {
            Err(e) => Err(line_err("Error parsing frequency at line "@, n, ": "@ + e)),
            Ok(frequency) => match message_id_spec(parts[2], n) {
                Err(e) => Err(e),
                Ok(id) => match trust_spec(parts[3]) {
                    Err(e) => Err(line_err("Error parsing trust level at line "@, n, ": "@ + e)),
                    Ok(trust) => match encoding_spec(parts[4]) {
                        Err(e) => Err(line_err("Error parsing encoding at line "@, n, ": "@ + e)),
                        Ok(encoding) => Ok(
                            PState {
                                message: Some(
                                    MessageView {
                                        name: parts[0],
                                        frequency,
                                        id,
                                        trust,
                                        encoding,
                                        flags: parts.skip(5),
                                        blocks: Seq::empty(),
                                    },
                                ),
                                ..st
                            },
                        ),
                    },
                },
            },
        }
    }
}

/// A field line inside a block, such as `{ Test1 U32 }`.
pub open spec fn field_step(st: PState, line: Seq<char>) -> PState {
    let content = trim(trim_end_by(trim_start_by(line, eq_pred('{')), eq_pred('}')));
    let parts = split_ws(content);
    if parts.len() >= 2 {
        match st.block {
            Some(b) => PState {
                block: Some(
                    BlockView {
                        fields: b.fields.push(
                            FieldView { name: parts[0], field_type: join(parts.skip(1), seq![' ']) },
                        ),
                        ..b
                    },
                ),
                ..st
            },
            None => st,
        }
    } else {
        st
    }
}

/// A block header line: `Name Cardinality [count]`.
pub open spec fn block_header_step(st: PState, line: Seq<char>, n: nat) -> Result<
    PState,
    Seq<char>,
> {
    let parts = split_ws(line);
    if parts.len() < 2 {
        Err(line_err("Invalid block header at line "@, n, ": expected at least 2 parts"@))
    } else {
        match cardinality_spec(parts[1]) {
            Err(e) => Err(line_err("Error parsing cardinality at line "@, n, ": "@ + e)),
            Ok(cardinality) => if cardinality == Cardinality::Multiple && parts.len() > 2 {
                match parse_u32_spec(parts[2], 10) {
                    Err(k) => Err(
                        line_err(
                            "Error parsing block count at line "@,
                            n,
                            ": "@ + int_error_text(k),
                        ),
                    ),
                    Ok(v) => Ok(
                        PState {
                            block: Some(
                                BlockView {
                                    name: parts[0],
                                    cardinality,
                                    count: Some(v as u32),
                                    fields: Seq::empty(),
                                },
                            ),
                            ..st
                        },
                    ),
                }
            } else {
                Ok(
                    PState {
                        block: Some(
                            BlockView {
                                name: parts[0],
                                cardinality,
                                count: None,
                                fields: Seq::empty(),
                            },
                        ),
                        ..st
                    },
                )
            },
        }
    }
}

/// One non-blank line while inside a block.
pub open spec fn block_step(st: PState, line: Seq<char>, n: nat) -> Result<PState, Seq<char>> {
    if line == "{"@ {
        Ok(PState { depth: st.depth + 1, ..st })
    } else if line == "}"@ {
        if st.depth - 1 == 1 {
            Ok(
                PState {
                    depth: st.depth - 1,
                    mode: ParseState::InMessage,
                    block: None,
                    message: match (st.message, st.block) {
                        (Some(m), Some(b)) => Some(MessageView { blocks: m.blocks.push(b), ..m }),
                        _ => st.message,
                    },
                    ..st
                },
            )
        } else {
            Ok(PState { depth: st.depth - 1, ..st })
        }
    } else if line.contains('{') && line.contains('}') {
        Ok(field_step(st, line))
    } else if !starts_with(line, "{"@) && !ends_with(line, "}"@) {
        block_header_step(st, line, n)
    } else {
        Ok(st)
    }
}

/// One trimmed line `line`, numbered `n`.
pub open spec fn step(st: PState, line: Seq<char>, n: nat) -> Result<PState, Seq<char>> {
    if line.len() == 0 || starts_with(line, "//"@) || starts_with(line, "version"@) {
        Ok(st)
    } else {
        match st.mode {
            ParseState::TopLevel => if line == "{"@ {
                Ok(PState { depth: st.depth + 1, mode: ParseState::InMessage, ..st })
            } else {
                Err(line_err("Unexpected content at line "@, n, ": "@ + line))
            },
            ParseState::InMessage => if line == "{"@ {
                Ok(PState { depth: st.depth + 1, mode: ParseState::InBlock, ..st })
            } else if line == "}"@ {
                if st.depth - 1 == 0 {
                    Ok(
                        PState {
                            depth: st.depth - 1,
                            mode: ParseState::TopLevel,
                            message: None,
                            messages: match st.message {
                                Some(m) => st.messages.push(m),
                                None => st.messages,
                            },
                            ..st
                        },
                    )
                } else {
                    Ok(PState { depth: st.depth - 1, ..st })
                }
            } else {
                header_step(st, line, n)
            },
            ParseState::InBlock => block_step(st, line, n),
        }
    }
}

/// Runs the parser over the lines of `s` (split at `'\n'`), the first of
/// them numbered `n + 1`.
pub open spec fn run(s: Seq<char>, n: nat, st: PState) -> Result<PState, Seq<char>>
    decreases s.len(),
{
    let i = prefix_len(s, ne_pred('\n'));
    proof {
        lemma_prefix_len_bound(s, ne_pred('\n'));
    }
    match step(st, trim(s.take(i as int)), n + 1) {
        Err(e) => Err(e),
        Ok(next) => if i >= s.len() {
            Ok(next)
        } else {
            run(s.skip(i as int + 1), n + 1, next)
        },
    }
}

pub open spec fn initial_pstate() -> PState {
    PState {
        messages: Seq::empty(),
        mode: ParseState::TopLevel,
        message: None,
        block: None,
        depth: 0,
    }
}

/// What `parse` returns for a template text.
pub open spec fn parse_spec(content: Seq<char>) -> Result<Seq<MessageView>, Seq<char>> {
    match run(content, 0, initial_pstate()) {
        Err(e) => Err(e),
        Ok(st) => if st.depth != 0 {
            Err("Unmatched braces: depth "@ + dec(st.depth as nat) + " at end of file"@)
        } else {
            Ok(st.messages)
        },
    }
}

/// Model of a parse result.
pub open spec fn parse_result_view(r: Result<MessageTemplate, String>) -> Result<
    Seq<MessageView>,
    Seq<char>,
> {
    match r {
        Ok(t) => Ok(t@),
        Err(e) => Err(e@),
    }
}

/// `lit` followed by the characters of `rest`.
fn concat_chars(lit: &str, rest: &Vec<char>) -> (v: Vec<char>)
    ensures
        v@ == lit@ + rest@,
{
    let mut v = chars_of(lit);
    push_chars(&mut v, rest);
    v
}

fn line_error(prefix: &str, n: usize, rest: &Vec<char>) -> (e: String)
    ensures
        e@ == line_err(prefix@, n as nat, rest@),
{
    let mut v = chars_of(prefix);
    push_dec(&mut v, n as u64);
    push_chars(&mut v, rest);
    string_of(&v)
}

fn int_error_chars(k: IntErrorKind) -> (v: Vec<char>)
    ensures
        v@ == int_error_text(k),
{
    match k {
        IntErrorKind::Empty => chars_of("cannot parse integer from empty string"),
        IntErrorKind::InvalidDigit => chars_of("invalid digit found in string"),
        IntErrorKind::PosOverflow => chars_of("number too large to fit in target type"),
    }
}

fn frequency_from_chars(s: &Vec<char>) -> (r: Result<Frequency, Vec<char>>)
    ensures
        match r {
            Ok(f) => frequency_spec(s@) == Ok::<Frequency, Seq<char>>(f),
            Err(e) => frequency_spec(s@) == Err::<Frequency, Seq<char>>(e@),
        },
{
    if chars_eq(s, &chars_of("High")) {
        Ok(Frequency::High)
    } else if chars_eq(s, &chars_of("Medium")) {
        Ok(Frequency::Medium)
    } else if chars_eq(s, &chars_of("Low")) {
        Ok(Frequency::Low)
    } else if chars_eq(s, &chars_of("Fixed")) {
        Ok(Frequency::Fixed)
    } else {
        Err(concat_chars("Unknown frequency: ", s))
    }
}

fn trust_from_chars(s: &Vec<char>) -> (r: Result<TrustLevel, Vec<char>>)
    ensures
        match r {
            Ok(f) => trust_spec(s@) == Ok::<TrustLevel, Seq<char>>(f),
            Err(e) => trust_spec(s@) == Err::<TrustLevel, Seq<char>>(e@),
        },
{
    if chars_eq(s, &chars_of("NotTrusted")) {
        Ok(TrustLevel::NotTrusted)
    } else if chars_eq(s, &chars_of("Trusted")) {
        Ok(TrustLevel::Trusted)
    } else {
        Err(concat_chars("Unknown trust level: ", s))
    }
}

fn encoding_from_chars(s: &Vec<char>) -> (r: Result<Encoding, Vec<char>>)
    ensures
        match r {
            Ok(f) => encoding_spec(s@) == Ok::<Encoding, Seq<char>>(f),
            Err(e) => encoding_spec(s@) == Err::<Encoding, Seq<char>>(e@),
        },
{
    if chars_eq(s, &chars_of("Unencoded")) {
        Ok(Encoding::Unencoded)
    } else if chars_eq(s, &chars_of("Zerocoded")) {
        Ok(Encoding::Zerocoded)
    } else {
        Err(concat_chars("Unknown encoding: ", s))
    }
}

fn cardinality_from_chars(s: &Vec<char>) -> (r: Result<Cardinality, Vec<char>>)
    ensures
        match r {
            Ok(f) => cardinality_spec(s@) == Ok::<Cardinality, Seq<char>>(f),
            Err(e) => cardinality_spec(s@) == Err::<Cardinality, Seq<char>>(e@),
        },
{
    if chars_eq(s, &chars_of("Single")) {
        Ok(Cardinality::Single)
    } else if chars_eq(s, &chars_of("Multiple")) {
        Ok(Cardinality::Multiple)
    } else if chars_eq(s, &chars_of("Variable")) {
        Ok(Cardinality::Variable)
    } else {
        Err(concat_chars("Unknown cardinality: ", s))
    }
}

impl Frequency {
    /// Parses a frequency name (`High`, `Medium`, `Low` or `Fixed`).
    pub fn parse_name(s: &str) -> (r: Result<Frequency, String>)
        ensures
            match r {
                Ok(f) => frequency_spec(s@) == Ok::<Frequency, Seq<char>>(f),
                Err(e) => frequency_spec(s@) == Err::<Frequency, Seq<char>>(e@),
            },
    {
        match frequency_from_chars(&chars_of(s)) {
            Ok(f) => Ok(f),
            Err(e) => Err(string_of(&e)),
        }
    }
}

impl TrustLevel {
    /// Parses a trust level name (`NotTrusted` or `Trusted`).
    pub fn parse_name(s: &str) -> (r: Result<TrustLevel, String>)
        ensures
            match r {
                Ok(f) => trust_spec(s@) == Ok::<TrustLevel, Seq<char>>(f),
                Err(e) => trust_spec(s@) == Err::<TrustLevel, Seq<char>>(e@),
            },
    {
        match trust_from_chars(&chars_of(s)) {
            Ok(f) => Ok(f),
            Err(e) => Err(string_of(&e)),
        }
    }
}

impl Encoding {
    /// Parses an encoding name (`Unencoded` or `Zerocoded`).
    pub fn parse_name(s: &str) -> (r: Result<Encoding, String>)
        ensures
            match r {
                Ok(f) => encoding_spec(s@) == Ok::<Encoding, Seq<char>>(f),
                Err(e) => encoding_spec(s@) == Err::<Encoding, Seq<char>>(e@),
            },
    {
        match encoding_from_chars(&chars_of(s)) {
            Ok(f) => Ok(f),
            Err(e) => Err(string_of(&e)),
        }
    }
}

impl Cardinality {
    /// Parses a cardinality name (`Single`, `Multiple` or `Variable`).
    pub fn parse_name(s: &str) -> (r: Result<Cardinality, String>)
        ensures
            match r {
                Ok(f) => cardinality_spec(s@) == Ok::<Cardinality, Seq<char>>(f),
                Err(e) => cardinality_spec(s@) == Err::<Cardinality, Seq<char>>(e@),
            },
    {
        match cardinality_from_chars(&chars_of(s)) {
            Ok(f) => Ok(f),
            Err(e) => Err(string_of(&e)),
        }
    }
}

impl std::str::FromStr for Frequency {
    type Err = String;

    fn from_str(s: &str) -> (r: Result<Frequency, String>)
        ensures
            match r {
                Ok(f) => frequency_spec(s@) == Ok::<Frequency, Seq<char>>(f),
                Err(e) => frequency_spec(s@) == Err::<Frequency, Seq<char>>(e@),
            },
    {
        Frequency::parse_name(s)
    }
}

impl std::str::FromStr for TrustLevel {
    type Err = String;

    fn from_str(s: &str) -> (r: Result<TrustLevel, String>)
        ensures
            match r {
                Ok(f) => trust_spec(s@) == Ok::<TrustLevel, Seq<char>>(f),
                Err(e) => trust_spec(s@) == Err::<TrustLevel, Seq<char>>(e@),
            },
    {
        TrustLevel::parse_name(s)
    }
}

impl std::str::FromStr for Encoding {
    type Err = String;

    fn from_str(s: &str) -> (r: Result<Encoding, String>)
        ensures
            match r {
                Ok(f) => encoding_spec(s@) == Ok::<Encoding, Seq<char>>(f),
                Err(e) => encoding_spec(s@) == Err::<Encoding, Seq<char>>(e@),
            },
    {
        Encoding::parse_name(s)
    }
}

impl std::str::FromStr for Cardinality {
    type Err = String;

    fn from_str(s: &str) -> (r: Result<Cardinality, String>)
        ensures
            match r {
                Ok(f) => cardinality_spec(s@) == Ok::<Cardinality, Seq<char>>(f),
                Err(e) => cardinality_spec(s@) == Err::<Cardinality, Seq<char>>(e@),
            },
    {
        Cardinality::parse_name(s)
    }
}

fn message_id(tok: &Vec<char>, n: usize) -> (r: Result<u32, String>)
    ensures
        match r {
            Ok(v) => message_id_spec(tok@, n as nat) == Ok::<u32, Seq<char>>(v),
            Err(e) => message_id_spec(tok@, n as nat) == Err::<u32, Seq<char>>(e@),
        },
{
    proof {
        reveal_strlit("0x");
        reveal_strlit("0X");
    }
    if has_prefix(tok, &chars_of("0x")) || has_prefix(tok, &chars_of("0X")) {
        let digits = copy_range(tok, 2, tok.len());
        assert(digits@ =~= tok@.skip(2));
        match parse_u32_radix(&digits, 16) {
            Ok(v) => Ok(v),
            Err(k) => Err(
                line_error(
                    "Error parsing hex message ID at line ",
                    n,
                    &concat_chars(": ", &int_error_chars(k)),
                ),
            ),
        }
    } else {
        match parse_u32_radix(tok, 10) {
            Ok(v) => Ok(v),
            Err(k) => Err(
                line_error(
                    "Error parsing message ID at line ",
                    n,
                    &concat_chars(": ", &int_error_chars(k)),
                ),
            ),
        }
    }
}

/// Strings of the tokens `parts[from..]`.
fn strings_from(parts: &Vec<Vec<char>>, from: usize) -> (r: Vec<String>)
    requires
        from <= parts.len(),
    ensures
        r@.map_values(|s: String| s@) == vv(parts@).skip(from as int),
{
    let mut r: Vec<String> = Vec::new();
    let mut k = from;
    while k < parts.len()
        invariant
            from <= k <= parts.len(),
            r@.map_values(|s: String| s@) == vv(parts@).skip(from as int).take(k - from),
        decreases parts.len() - k,
    {
        let ghost before = r@;
        let sv = string_of(&parts[k]);
        assert(sv@ == vv(parts@)[k as int]);
        r.push(sv);
        assert(r@ =~= before.push(sv));
        assert(r@.map_values(|s: String| s@) =~= before.map_values(|s: String| s@).push(sv@));
        assert(vv(parts@).skip(from as int).take(k + 1 - from) =~= vv(parts@).skip(from as int).take(
            k - from,
        ).push(vv(parts@)[k as int]));
        k = k + 1;
    }
    assert(vv(parts@).skip(from as int).take(parts.len() - from) =~= vv(parts@).skip(from as int));
    r
}

/// The executable parser state.
struct Parser {
    messages: Vec<MessageDefinition>,
    mode: ParseState,
    message: Option<MessageDefinition>,
    block: Option<BlockDefinition>,
    depth: usize,
}

impl Parser {
    spec fn view(&self) -> PState {
        PState {
            messages: self.messages@.map_values(|m: MessageDefinition| m@),
            mode: self.mode,
            message: match self.message {
                Some(m) => Some(m@),
                None => None,
            },
            block: match self.block {
                Some(b) => Some(b@),
                None => None,
            },
            depth: self.depth as int,
        }
    }

    fn header_step(&mut self, line: &Vec<char>, n: usize) -> (r: Result<(), String>)
        ensures
            match r {
                Ok(()) => header_step(old(self).view(), line@, n as nat) == Ok::<PState, Seq<char>>(
                    final(self).view(),
                ),
                Err(e) => header_step(old(self).view(), line@, n as nat) == Err::<
                    PState,
                    Seq<char>,
                >(e@),
            },
            final(self).depth == old(self).depth,
            final(self).mode == old(self).mode,
    {
        let parts = split_whitespace(line);
        if parts.len() < 5 {
            let mut rest = chars_of(": expected at least 5 parts, got ");
            push_dec(&mut rest, parts.len() as u64);
            return Err(line_error("Invalid message header at line ", n, &rest));
        }
        let frequency = match frequency_from_chars(&parts[1]) {
            Ok(f) => f,
            Err(e) => {
                return Err(
                    line_error("Error parsing frequency at line ", n, &concat_chars(": ", &e)),
                );
            },
        };
        let id = match message_id(&parts[2], n) {
            Ok(v) => v,
            Err(e) => {
                return Err(e);
            },
        };
        let trust = match trust_from_chars(&parts[3]) {
            Ok(t) => t,
            Err(e) => {
                return Err(
                    line_error("Error parsing trust level at line ", n, &concat_chars(": ", &e)),
                );
            },
        };
        let encoding = match encoding_from_chars(&parts[4]) {
            Ok(t) => t,
            Err(e) => {
                return Err(
                    line_error("Error parsing encoding at line ", n, &concat_chars(": ", &e)),
                );
            },
        };
        let flags = strings_from(&parts, 5);
        let blocks: Vec<BlockDefinition> = Vec::new();
        let m = MessageDefinition {
            name: string_of(&parts[0]),
            frequency,
            id,
            trust,
            encoding,
            flags,
            blocks,
        };
        assert(m@.blocks =~= Seq::<BlockView>::empty());
        self.message = Some(m);
        Ok(())
    }

    fn block_header_step(&mut self, line: &Vec<char>, n: usize) -> (r: Result<(), String>)
        ensures
            match r {
                Ok(()) => block_header_step(old(self).view(), line@, n as nat) == Ok::<
                    PState,
                    Seq<char>,
                >(final(self).view()),
                Err(e) => block_header_step(old(self).view(), line@, n as nat) == Err::<
                    PState,
                    Seq<char>,
                >(e@),
            },
            final(self).depth == old(self).depth,
            final(self).mode == old(self).mode,
    {
        let parts = split_whitespace(line);
        if parts.len() < 2 {
            return Err(
                line_error(
                    "Invalid block header at line ",
                    n,
                    &chars_of(": expected at least 2 parts"),
                ),
            );
        }
        let cardinality = match cardinality_from_chars(&parts[1]) {
            Ok(c) => c,
            Err(e) => {
                return Err(
                    line_error("Error parsing cardinality at line ", n, &concat_chars(": ", &e)),
                );
            },
        };
        let is_multiple = match cardinality {
            Cardinality::Multiple => true,
            _ => false,
        };
        let count = if is_multiple && parts.len() > 2 {
            match parse_u32_radix(&parts[2], 10) {
                Ok(v) => Some(v),
                Err(k) => {
                    return Err(
                        line_error(
                            "Error parsing block count at line ",
                            n,
                            &concat_chars(": ", &int_error_chars(k)),
                        ),
                    );
                },
            }
        } else {
            None
        };
        let fields: Vec<FieldDefinition> = Vec::new();
        let b = BlockDefinition { name: string_of(&parts[0]), cardinality, count, fields };
        assert(b@.fields =~= Seq::<FieldView>::empty());
        self.block = Some(b);
        Ok(())
    }

    fn field_step(&mut self, line: &Vec<char>)
        ensures
            field_step(old(self).view(), line@) == final(self).view(),
            final(self).depth == old(self).depth,
            final(self).mode == old(self).mode,
    {
        let outer = trim_char_ends(line, '{', '}');
        let content = trim_range(&outer, 0, outer.len());
        assert(outer@.subrange(0, outer@.len() as int) =~= outer@);
        let parts = split_whitespace(&content);
        if parts.len() >= 2 {
            match self.block.take() {
                Some(b) => {
                    let mut b = b;
                    let ghost old_fields = b.fields@;
                    let f = FieldDefinition {
                        name: string_of(&parts[0]),
                        field_type: string_of(&join_from(&parts, 1, ' ')),
                    };
                    b.fields.push(f);
                    assert(b.fields@.map_values(|f: FieldDefinition| f@) =~= old_fields.map_values(
                        |f: FieldDefinition| f@,
                    ).push(f@));
                    self.block = Some(b);
                },
                None => {},
            }
        }
    }

    fn step(&mut self, line: &Vec<char>, n: usize) -> (r: Result<(), String>)
        requires
            pstate_wf(old(self).view()),
            1 <= n,
            old(self).depth < n,
        ensures
            match r {
                Ok(()) => step(old(self).view(), line@, n as nat) == Ok::<PState, Seq<char>>(
                    final(self).view(),
                ) && pstate_wf(final(self).view()) && final(self).depth <= n,
                Err(e) => step(old(self).view(), line@, n as nat) == Err::<PState, Seq<char>>(e@),
            },
    {
        if line.len() == 0 || has_prefix(line, &chars_of("//")) || has_prefix(
            line,
            &chars_of("version"),
        ) {
            return Ok(());
        }
        let is_open = chars_eq(line, &chars_of("{"));
        let is_close = chars_eq(line, &chars_of("}"));
        match self.mode {
            ParseState::TopLevel => {
                if is_open {
                    self.depth = self.depth + 1;
                    self.mode = ParseState::InMessage;
                    Ok(())
                } else {
                    Err(line_error("Unexpected content at line ", n, &concat_chars(": ", line)))
                }
            },
            ParseState::InMessage => {
                if is_open {
                    self.depth = self.depth + 1;
                    self.mode = ParseState::InBlock;
                    Ok(())
                } else if is_close {
                    self.depth = self.depth - 1;
                    self.mode = ParseState::TopLevel;
                    let ghost old_msgs = self.messages@;
                    match self.message.take() {
                        Some(m) => {
                            let ghost mv = m@;
                            self.messages.push(m);
                            assert(self.messages@.map_values(|m: MessageDefinition| m@)
                                =~= old_msgs.map_values(|m: MessageDefinition| m@).push(mv));
                        },
                        None => {},
                    }
                    Ok(())
                } else {
                    self.header_step(line, n)
                }
            },
            ParseState::InBlock => {
                if is_open {
                    self.depth = self.depth + 1;
                    Ok(())
                } else if is_close {
                    self.depth = self.depth - 1;
                    if self.depth == 1 {
                        self.mode = ParseState::InMessage;
                        let blk = self.block.take();
                        match self.message.take() {
                            Some(m) => {
                                match blk {
                                    Some(b) => {
                                        let mut m = m;
                                        let ghost old_blocks = m.blocks@;
                                        let ghost bv = b@;
                                        m.blocks.push(b);
                                        assert(m.blocks@.map_values(|b: BlockDefinition| b@)
                                            =~= old_blocks.map_values(
                                            |b: BlockDefinition| b@,
                                        ).push(bv));
                                        self.message = Some(m);
                                    },
                                    None => {
                                        self.message = Some(m);
                                    },
                                }
                            },
                            None => {},
                        }
                    }
                    Ok(())
                } else if has_char(line, '{') && has_char(line, '}') {
                    self.field_step(line);
                    Ok(())
                } else if !has_prefix(line, &chars_of("{")) && !has_suffix(line, &chars_of("}")) {
                    self.block_header_step(line, n)
                } else {
                    Ok(())
                }
            },
        }
    }
}

/// Parses the content of a `message_template.msg` file.
///
/// Returns the messages in the order they appear, or an error that names
/// the offending line.
pub fn parse(content: &str) -> (res: Result<MessageTemplate, String>)
    requires
        content@.len() < usize::MAX,
    ensures
        parse_result_view(res) == parse_spec(content@),
{
    let chars = chars_of(content);
    let n = chars.len();
    let mut p = Parser {
        messages: Vec::new(),
        mode: ParseState::TopLevel,
        message: None,
        block: None,
        depth: 0,
    };
    assert(p.view().messages =~= Seq::<MessageView>::empty());
    assert(p.view() == initial_pstate());
    let mut pos: usize = 0;
    let mut line_num: usize = 0;
    assert(chars@.skip(0) =~= chars@);
    loop
        invariant_except_break
            pos <= n,
            line_num <= pos,
            p.depth <= line_num,
            run(chars@, 0, initial_pstate()) == run(chars@.skip(pos as int), line_num as nat, p.view()),
        invariant
            n == chars.len(),
            n < usize::MAX,
            pstate_wf(p.view()),
            parse_spec(content@) == match run(chars@, 0, initial_pstate()) {
                Err(e) => Err(e),
                Ok(st) => if st.depth != 0 {
                    Err("Unmatched braces: depth "@ + dec(st.depth as nat) + " at end of file"@)
                } else {
                    Ok(st.messages)
                },
            },
        ensures
            run(chars@, 0, initial_pstate()) == Ok::<PState, Seq<char>>(p.view()),
        decreases n - pos,
    {
        let ghost s = chars@.skip(pos as int);
        let mut j = pos;
        while j < n && chars[j] != '\n'
            invariant
                n == chars.len(),
                pos <= j <= n,
                s == chars@.skip(pos as int),
                forall|k: int| 0 <= k < j - pos ==> #[trigger] s[k] != '\n',
            decreases n - j,
        {
            j = j + 1;
        }
        proof {
            assert forall|k: int| 0 <= k < j - pos implies #[trigger] ne_pred('\n')(s[k]) by {
                assert(s[k] != '\n');
            }
            if j < n {
                assert(s[j - pos] == chars@[j as int]);
            }
            lemma_prefix_len_is(s, ne_pred('\n'), j - pos);
            assert(s.take(j - pos) =~= chars@.subrange(pos as int, j as int));
        }
        let line = trim_range(&chars, pos, j);
        line_num = line_num + 1;
        let ghost before = p.view();
        match p.step(&line, line_num) {
            Err(e) => {
                return Err(e);
            },
            Ok(()) => {},
        }
        if j >= n {
            break;
        }
        assert(s.skip(j - pos + 1) =~= chars@.skip(j + 1));
        pos = j + 1;
    }
    if p.depth != 0 {
        let mut e = chars_of("Unmatched braces: depth ");
        push_dec(&mut e, p.depth as u64);
        push_chars(&mut e, &chars_of(" at end of file"));
        return Err(string_of(&e));
    }
    Ok(MessageTemplate { messages: p.messages })
}

/// A field line `{ name type }` inside a block adds the field `name` whose
/// type is the rest of the line as written, when its words are separated by
/// single spaces (so a type of several words, such as `Fixed 32`, keeps all
/// of them); the rest of the state is unchanged.
pub proof fn lemma_field_line_keeps_type(st: PState, b: BlockView, name: Seq<char>, ty: Seq<char>)
    requires
        st.block == Some(b),
        name.len() > 0,
        forall|i: int| 0 <= i < name.len() ==> !is_ws(#[trigger] name[i]),
        single_spaced(ty),
    ensures
        field_step(st, seq!['{', ' '] + name + seq![' '] + ty + seq![' ', '}']) == (PState {
            block: Some(BlockView { fields: b.fields.push(FieldView { name, field_type: ty }), ..b }),
            ..st
        }),
{
    let line = seq!['{', ' '] + name + seq![' '] + ty + seq![' ', '}'];
    // `{` and `}` at the ends come off, once each.
    assert forall|k: int| 0 <= k < 1 implies #[trigger] eq_pred('{')(line[k]) by {}
    assert(line[1] == ' ');
    lemma_prefix_len_is(line, eq_pred('{'), 1);
    let l1 = line.skip(1);
    assert(l1 =~= seq![' '] + name + seq![' '] + ty + seq![' ', '}']);
    assert forall|k: int| l1.len() - 1 <= k < l1.len() implies #[trigger] eq_pred('}')(l1[k]) by {}
    assert(l1[l1.len() - 2] == ' ');
    lemma_suffix_len_is(l1, eq_pred('}'), 1);
    let l2 = l1.take(l1.len() - 1);
    assert(l2 =~= seq![' '] + name + seq![' '] + ty + seq![' ']);
    // The spaces inside them come off, once each.
    assert forall|k: int| 0 <= k < 1 implies #[trigger] ws_pred()(l2[k]) by {}
    assert(l2[1] == name[0]);
    lemma_prefix_len_is(l2, ws_pred(), 1);
    let l3 = l2.skip(1);
    assert(l3 =~= name + seq![' '] + ty + seq![' ']);
    assert forall|k: int| l3.len() - 1 <= k < l3.len() implies #[trigger] ws_pred()(l3[k]) by {}
    assert(l3[l3.len() - 2] == ty.last());
    lemma_suffix_len_is(l3, ws_pred(), 1);
    let content = l3.take(l3.len() - 1);
    assert(content =~= name + (seq![' '] + ty));
    assert(trim(trim_end_by(trim_start_by(line, eq_pred('{')), eq_pred('}'))) == content);
    // The words: the name, then the words of the type.
    lemma_split_ws_word(name, seq![' '] + ty);
    lemma_split_ws_skip(' ', ty);
    lemma_join_split_single_spaced(ty);
    let parts = split_ws(content);
    assert(parts =~= seq![name] + split_ws(ty));
    assert(parts.skip(1) =~= split_ws(ty));
}

/// Inside a block, the line `{ name type }` is read as that field: the
/// parser's step on it adds the field `name` with the type as written.
pub proof fn lemma_field_line_in_block(st: PState, b: BlockView, name: Seq<char>, ty: Seq<char>, n: nat)
    requires
        st.mode == ParseState::InBlock,
        st.block == Some(b),
        name.len() > 0,
        forall|i: int| 0 <= i < name.len() ==> !is_ws(#[trigger] name[i]),
        single_spaced(ty),
    ensures
        step(st, seq!['{', ' '] + name + seq![' '] + ty + seq![' ', '}'], n) == Ok::<PState, Seq<char>>(
            PState {
                block: Some(BlockView { fields: b.fields.push(FieldView { name, field_type: ty }), ..b }),
                ..st
            },
        ),
{
    let line = seq!['{', ' '] + name + seq![' '] + ty + seq![' ', '}'];
    lemma_field_line_keeps_type(st, b, name, ty);
    reveal_strlit("//");
    reveal_strlit("version");
    reveal_strlit("{");
    reveal_strlit("}");
    assert(line[0] == '{' && line[1] == ' ');
    assert(line.last() == '}');
    assert("//"@[0] == '/');
    assert("version"@[0] == 'v');
    assert(!starts_with(line, "//"@)) by {
        if starts_with(line, "//"@) {
            assert(line.take(2)[0] == "//"@[0]);
        }
    }
    assert(!starts_with(line, "version"@)) by {
        if starts_with(line, "version"@) {
            assert(line.take(7)[0] == "version"@[0]);
        }
    }
    assert(line.len() > 1);
    assert("{"@.len() == 1 && "}"@.len() == 1);
    assert(line != "{"@);
    assert(line != "}"@);
    assert(line.contains('{')) by {
        assert(line[0] == '{');
    }
    assert(line.contains('}')) by {
        assert(line[line.len() - 1] == '}');
    }
}

/// The word a template uses for each frequency class.
pub open spec fn frequency_word(f: Frequency) -> Seq<char> {
    match f {
        Frequency::High => "High"@,
        Frequency::Medium => "Medium"@,
        Frequency::Low => "Low"@,
        Frequency::Fixed => "Fixed"@,
    }
}

/// The word a template uses for each trust level.
pub open spec fn trust_word(t: TrustLevel) -> Seq<char> {
    match t {
        TrustLevel::NotTrusted => "NotTrusted"@,
        TrustLevel::Trusted => "Trusted"@,
    }
}

/// The word a template uses for each encoding.
pub open spec fn encoding_word(e: Encoding) -> Seq<char> {
    match e {
        Encoding::Unencoded => "Unencoded"@,
        Encoding::Zerocoded => "Zerocoded"@,
    }
}

/// The word a template uses for each cardinality.
pub open spec fn cardinality_word(c: Cardinality) -> Seq<char> {
    match c {
        Cardinality::Single => "Single"@,
        Cardinality::Multiple => "Multiple"@,
        Cardinality::Variable => "Variable"@,
    }
}

/// Each frequency, trust level, encoding and cardinality word reads as what
/// it names, and no other text reads as anything.
pub proof fn lemma_template_words(f: Frequency, t: TrustLevel, e: Encoding, c: Cardinality, s: Seq<char>)
    ensures
        frequency_spec(frequency_word(f)) == Ok::<Frequency, Seq<char>>(f),
        trust_spec(trust_word(t)) == Ok::<TrustLevel, Seq<char>>(t),
        encoding_spec(encoding_word(e)) == Ok::<Encoding, Seq<char>>(e),
        cardinality_spec(cardinality_word(c)) == Ok::<Cardinality, Seq<char>>(c),
        frequency_spec(s) matches Ok(g) ==> s == frequency_word(g),
        trust_spec(s) matches Ok(g) ==> s == trust_word(g),
        encoding_spec(s) matches Ok(g) ==> s == encoding_word(g),
        cardinality_spec(s) matches Ok(g) ==> s == cardinality_word(g),
{
    reveal_strlit("High");
    reveal_strlit("Medium");
    reveal_strlit("Low");
    reveal_strlit("Fixed");
    reveal_strlit("NotTrusted");
    reveal_strlit("Trusted");
    reveal_strlit("Unencoded");
    reveal_strlit("Zerocoded");
    reveal_strlit("Single");
    reveal_strlit("Multiple");
    reveal_strlit("Variable");
    assert("High"@.len() == 4 && "Medium"@.len() == 6 && "Low"@.len() == 3 && "Fixed"@.len() == 5);
    assert("NotTrusted"@.len() == 10 && "Trusted"@.len() == 7);
    assert("Unencoded"@[0] != "Zerocoded"@[0]);
    assert("Single"@.len() == 6 && "Multiple"@.len() == 8 && "Variable"@.len() == 8);
    assert("Multiple"@[0] != "Variable"@[0]);
}

/// A word: not empty, with no white space.
pub open spec fn is_word(w: Seq<char>) -> bool {
    w.len() > 0 && forall|i: int| 0 <= i < w.len() ==> !is_ws(#[trigger] w[i])
}

/// A word, a space and more text split into the word and the words of the
/// text.
proof fn lemma_split_word_space(w: Seq<char>, rest: Seq<char>)
    requires
        is_word(w),
    ensures
        split_ws(w + (seq![' '] + rest)) == seq![w] + split_ws(rest),
{
    lemma_split_ws_word(w, seq![' '] + rest);
    lemma_split_ws_skip(' ', rest);
}

/// A last word splits into itself.
proof fn lemma_split_last_word(w: Seq<char>)
    requires
        is_word(w),
    ensures
        split_ws(w) == seq![w],
{
    lemma_split_ws_word(w, Seq::empty());
    assert(w + Seq::<char>::empty() =~= w);
    assert(split_ws(Seq::<char>::empty()) =~= Seq::<Seq<char>>::empty());
    assert(seq![w] + Seq::<Seq<char>>::empty() =~= seq![w]);
}

/// The decimal rendering of a number is a word that does not start with
/// `0x` or `0X`.
proof fn lemma_dec_word(n: nat)
    ensures
        is_word(dec(n)),
        !starts_with(dec(n), "0x"@),
        !starts_with(dec(n), "0X"@),
{
    crate::login_fields::lemma_dec_digits(n);
    let d = dec(n);
    assert forall|i: int| 0 <= i < d.len() implies !is_ws(#[trigger] d[i]) by {
        assert('0' <= d[i] && d[i] <= '9');
    }
    reveal_strlit("0x");
    reveal_strlit("0X");
    if d.len() >= 2 {
        assert('0' <= d[1] && d[1] <= '9');
        assert(d.take(2)[1] == d[1]);
        assert("0x"@[1] == 'x');
        assert("0X"@[1] == 'X');
    }
}

/// A message header `name frequency id trust encoding`, one space between
/// the words and the ID in decimal, starts a message with that name,
/// frequency, ID, trust and encoding, no flags and no blocks; the rest of
/// the state is unchanged.
pub proof fn lemma_message_header_line(
    st: PState,
    name: Seq<char>,
    f: Frequency,
    id: u32,
    t: TrustLevel,
    e: Encoding,
    n: nat,
)
    requires
        is_word(name),
    ensures
        header_step(
            st,
            name + (seq![' '] + (frequency_word(f) + (seq![' '] + (dec(id as nat) + (seq![' '] + (
            trust_word(t) + (seq![' '] + encoding_word(e)))))))),
            n,
        ) == Ok::<PState, Seq<char>>(
            PState {
                message: Some(
                    MessageView {
                        name,
                        frequency: f,
                        id,
                        trust: t,
                        encoding: e,
                        flags: Seq::empty(),
                        blocks: Seq::empty(),
                    },
                ),
                ..st
            },
        ),
{
    lemma_words_are_words(f, t, e, Cardinality::Single);
    lemma_template_words(f, t, e, Cardinality::Single, Seq::empty());
    lemma_dec_word(id as nat);
    lemma_parse_u32_dec(id as nat);
    let fw = frequency_word(f);
    let iw = dec(id as nat);
    let tw = trust_word(t);
    let ew = encoding_word(e);
    lemma_split_last_word(ew);
    lemma_split_word_space(tw, ew);
    lemma_split_word_space(iw, tw + (seq![' '] + ew));
    lemma_split_word_space(fw, iw + (seq![' '] + (tw + (seq![' '] + ew))));
    lemma_split_word_space(name, fw + (seq![' '] + (iw + (seq![' '] + (tw + (seq![' '] + ew))))));
    let parts = seq![name] + (seq![fw] + (seq![iw] + (seq![tw] + seq![ew])));
    assert(parts.skip(5) =~= Seq::<Seq<char>>::empty());
}

/// A block header `name cardinality`, or `name Multiple count` with the
/// count in decimal, one space between the words, starts a block with that
/// name and cardinality, the count for a `Multiple` block, and no fields;
/// the rest of the state is unchanged.
pub proof fn lemma_block_header_line(st: PState, name: Seq<char>, c: Cardinality, count: u32, n: nat)
    requires
        is_word(name),
    ensures
        block_header_step(st, name + (seq![' '] + cardinality_word(c)), n) == Ok::<PState, Seq<char>>(
            PState {
                block: Some(BlockView { name, cardinality: c, count: None, fields: Seq::empty() }),
                ..st
            },
        ),
        block_header_step(
            st,
            name + (seq![' '] + (cardinality_word(Cardinality::Multiple) + (seq![' '] + dec(
                count as nat,
            )))),
            n,
        ) == Ok::<PState, Seq<char>>(
            PState {
                block: Some(
                    BlockView {
                        name,
                        cardinality: Cardinality::Multiple,
                        count: Some(count),
                        fields: Seq::empty(),
                    },
                ),
                ..st
            },
        ),
{
    lemma_words_are_words(Frequency::High, TrustLevel::Trusted, Encoding::Unencoded, c);
    lemma_words_are_words(Frequency::High, TrustLevel::Trusted, Encoding::Unencoded, Cardinality::Multiple);
    lemma_template_words(Frequency::High, TrustLevel::Trusted, Encoding::Unencoded, c, Seq::empty());
    lemma_template_words(
        Frequency::High,
        TrustLevel::Trusted,
        Encoding::Unencoded,
        Cardinality::Multiple,
        Seq::empty(),
    );
    let cw = cardinality_word(c);
    let mw = cardinality_word(Cardinality::Multiple);
    let kw = dec(count as nat);
    lemma_dec_word(count as nat);
    lemma_parse_u32_dec(count as nat);
    lemma_split_last_word(cw);
    lemma_split_word_space(name, cw);
    lemma_split_last_word(kw);
    lemma_split_word_space(mw, kw);
    lemma_split_word_space(name, mw + (seq![' '] + kw));
}

/// The template's words for frequencies, trust levels, encodings and
/// cardinalities are words.
proof fn lemma_words_are_words(f: Frequency, t: TrustLevel, e: Encoding, c: Cardinality)
    ensures
        is_word(frequency_word(f)),
        is_word(trust_word(t)),
        is_word(encoding_word(e)),
        is_word(cardinality_word(c)),
{
    reveal_strlit("High");
    reveal_strlit("Medium");
    reveal_strlit("Low");
    reveal_strlit("Fixed");
    reveal_strlit("NotTrusted");
    reveal_strlit("Trusted");
    reveal_strlit("Unencoded");
    reveal_strlit("Zerocoded");
    reveal_strlit("Single");
    reveal_strlit("Multiple");
    reveal_strlit("Variable");
}

} // verus!
