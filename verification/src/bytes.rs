//! Byte strings and their methods.

use crate::args::{
    at_least_error, at_most_error, bound_args, clamped, holds_args, normalize_sequence_index, one_arg, pos_only,
    texts_of, type_error_at_least, type_error_at_most, zero_one_arg, ArgValues, ArgsModel,
};
use crate::bytes_text::{
    bytes_rsplitn_whitespace, bytes_split_whitespace, bytes_splitn_whitespace, bytes_strip_ends, chars_model,
    ends_with, has_prefix, has_suffix, same_bytes, starts_with, stripped, words_before, words_from, BytesPredicate,
    CaseChange, Justify, StripSide,
};
use crate::exceptions::{
    type_error, type_error_model, value_error, value_error_model, ErrorModel, RunError, RunResult,
};
use crate::heap::{timed_out, DataModel, HeapData, VM, VmModel};
use crate::resource_checks::{limit_error, may_time_out, run_error, ResourceError, ResourceTracker};
use crate::scan::{
    all_bytes, bytes_rsplitn_by_seq, bytes_split_by_seq, bytes_splitn_by_seq, copied, count_from,
    count_non_overlapping, find_subsequence, first_from, last_before, lemma_first_from, lemma_last_before,
    rfind_subsequence, rsplit_before, split_at_first, split_at_last, split_from,
};
use crate::text::{decimal, decimal_text, same_text};
use crate::value::{BytesId, HeapId, Value};
use vstd::prelude::*;
use vstd::slice::{slice_subrange, slice_to_vec};

verus! {

/// The byte at an index, which counts from the end where it is negative.
pub open spec fn byte_at(bytes: Seq<u8>, index: int) -> Option<u8> {
    let place = if index < 0 {
        index + bytes.len()
    } else {
        index
    };
    if 0 <= place < bytes.len() {
        Some(bytes[place])
    } else {
        None
    }
}

/// Reads the byte at an index, which counts from the end where it is negative.
pub fn get_byte_at_index(bytes: &[u8], index: i64) -> (byte: Option<u8>)
    ensures
        byte == byte_at(bytes@, index as int),
{
    let len: i128 = bytes.len() as i128;
    let place: i128 = if index < 0 {
        index as i128 + len
    } else {
        index as i128
    };
    if place < 0 || place >= len {
        return None;
    }
    Some(bytes[place as usize])
}

/// A byte string.
pub struct Bytes {
    pub data: Vec<u8>,
    /// The hash, once it was asked for.
    pub cached_hash: Option<u64>,
}

impl View for Bytes {
    type V = Seq<u8>;

    open spec fn view(&self) -> Seq<u8> {
        self.data@
    }
}

impl Bytes {
    /// Makes a byte string of a list of bytes.
    pub fn new(bytes: Vec<u8>) -> (made: Bytes)
        ensures
            made@ == bytes@,
            made.cached_hash is None,
    {
        Bytes { data: bytes, cached_hash: None }
    }

    /// The bytes themselves.
    pub fn as_slice(&self) -> (bytes: &[u8])
        ensures
            bytes@ == self@,
    {
        self.data.as_slice()
    }

    /// Says whether two byte strings hold the same bytes.
    pub fn py_eq(&self, other: &Bytes) -> (same: bool)
        ensures
            same == (self@ == other@),
    {
        same_bytes(self.as_slice(), other.as_slice())
    }

    /// The hash: the one asked for before, or else the one given, which is
    /// kept.
    pub fn py_hash(&mut self, computed: u64) -> (hash: u64)
        ensures
            hash == match old(self).cached_hash {
                Some(cached) => cached,
                None => computed,
            },
            final(self).cached_hash == Some(hash),
            final(self)@ == old(self)@,
    {
        match self.cached_hash {
            Some(cached) => cached,
            None => {
                self.cached_hash = Some(computed);
                computed
            },
        }
    }
}

/// Something that only the host of a run can answer.
pub enum Question {
    /// Is the value true?
    Truth(Value),
    /// Which items does the value yield?
    Items(Value),
    /// Which text do the bytes stand for?
    Decode { encoding: String, errors: String },
    /// Which bytes stand for the text of the value?
    Encode { source: Value, encoding: String, errors: String },
}

/// A question as a mathematical value.
#[verifier::ext_equal]
pub enum QuestionModel {
    Truth(Value),
    Items(Value),
    Decode { encoding: Seq<char>, errors: Seq<char> },
    Encode { source: Value, encoding: Seq<char>, errors: Seq<char> },
}

impl View for Question {
    type V = QuestionModel;

    open spec fn view(&self) -> QuestionModel {
        match *self {
            Question::Truth(value) => QuestionModel::Truth(value),
            Question::Items(value) => QuestionModel::Items(value),
            Question::Decode { encoding, errors } => QuestionModel::Decode { encoding: encoding@, errors: errors@ },
            Question::Encode { source, encoding, errors } => QuestionModel::Encode {
                source,
                encoding: encoding@,
                errors: errors@,
            },
        }
    }
}

/// What the host of a run answers.
pub enum Reply {
    Truth(bool),
    /// The items, and the error that ended them where there was one.
    Items(Vec<Value>, Option<RunError>),
    Text(String),
    Bytes(Vec<u8>),
    Failed(RunError),
}

/// An answer as a mathematical value.
#[verifier::ext_equal]
pub enum ReplyModel {
    Truth(bool),
    Items(Seq<Value>, Option<ErrorModel>),
    Text(Seq<char>),
    Bytes(Seq<u8>),
    Failed(ErrorModel),
}

impl View for Reply {
    type V = ReplyModel;

    open spec fn view(&self) -> ReplyModel {
        match *self {
            Reply::Truth(truth) => ReplyModel::Truth(truth),
            Reply::Items(items, failure) => ReplyModel::Items(
                items@,
                match failure {
                    Some(error) => Some(error@),
                    None => None,
                },
            ),
            Reply::Text(text) => ReplyModel::Text(text@),
            Reply::Bytes(bytes) => ReplyModel::Bytes(bytes@),
            Reply::Failed(error) => ReplyModel::Failed(error@),
        }
    }
}

/// An answer, where there is one.
pub open spec fn reply_model(reply: Option<Reply>) -> Option<ReplyModel> {
    match reply {
        Some(reply) => Some(reply@),
        None => None,
    }
}

/// What a method makes, before it is put on the heap.
pub enum Made {
    Plain(Value),
    Bytes(Vec<u8>),
    Text(String),
    /// A list of byte strings.
    Parts(Vec<Vec<u8>>),
    /// A tuple of three byte strings.
    Triple(Vec<u8>, Vec<u8>, Vec<u8>),
    /// Nothing yet: the host has to answer first.
    Ask(Question),
}

/// What a method makes, as a mathematical value.
#[verifier::ext_equal]
pub enum MadeModel {
    Plain(Value),
    Bytes(Seq<u8>),
    Text(Seq<char>),
    Parts(Seq<Seq<u8>>),
    Triple(Seq<u8>, Seq<u8>, Seq<u8>),
    Ask(QuestionModel),
}

impl View for Made {
    type V = MadeModel;

    open spec fn view(&self) -> MadeModel {
        match *self {
            Made::Plain(value) => MadeModel::Plain(value),
            Made::Bytes(bytes) => MadeModel::Bytes(bytes@),
            Made::Text(text) => MadeModel::Text(text@),
            Made::Parts(parts) => MadeModel::Parts(all_bytes(parts@)),
            Made::Triple(a, b, c) => MadeModel::Triple(a@, b@, c@),
            Made::Ask(question) => MadeModel::Ask(question@),
        }
    }
}

/// What a method gives.
pub type Outcome = Result<MadeModel, ErrorModel>;

/// The result is what the model gives.
pub open spec fn makes(result: RunResult<Made>, model: Outcome) -> bool {
    match (result, model) {
        (Ok(made), Ok(expected)) => made@ == expected,
        (Err(error), Err(expected)) => error@ == expected,
        _ => false,
    }
}

/// The model is what comes after a scan: something is made, or nothing was
/// found. Every other error comes before one.
pub open spec fn scanned(model: Outcome) -> bool {
    model is Ok || model == Err::<MadeModel, ErrorModel>(value_error_model("subsection not found"@))
}

/// The result is what the model gives, unless the time of a scan ran out.
pub open spec fn makes_in_time(tracker: ResourceTracker, result: RunResult<Made>, model: Outcome) -> bool {
    makes(result, model) || scanned(model) && timed_out(tracker, result)
}

/// The error of a scan whose time ran out.
pub fn stop(tracker: &ResourceTracker, limit: ResourceError) -> (error: RunError)
    requires
        may_time_out(*tracker, limit),
    ensures
        timed_out(*tracker, Err::<Made, RunError>(error)),
        error@ == limit_error(limit),
{
    let error = run_error(limit);
    assert(may_time_out(*tracker, limit) && error@ == limit_error(limit));
    error
}

/// A method of byte strings.
#[derive(Clone, Copy, Debug, PartialEq, Eq, Structural)]
pub enum BytesMethod {
    Decode,
    Case(CaseChange),
    Test(BytesPredicate),
    Count,
    Find,
    Rfind,
    Index,
    Rindex,
    Startswith,
    Endswith,
    Strip(StripSide),
    Removeprefix,
    Removesuffix,
    Split,
    Rsplit,
    Splitlines,
    Partition,
    Rpartition,
    Replace,
    Justify(Justify),
    Join,
    Hex,
    Fromhex,
}

/// The name of a method, behind that of its type.
pub open spec fn method_name(method: BytesMethod) -> Seq<char> {
    match method {
        BytesMethod::Decode => "bytes.decode"@,
        BytesMethod::Case(CaseChange::Lower) => "bytes.lower"@,
        BytesMethod::Case(CaseChange::Upper) => "bytes.upper"@,
        BytesMethod::Case(CaseChange::Capitalize) => "bytes.capitalize"@,
        BytesMethod::Case(CaseChange::Title) => "bytes.title"@,
        BytesMethod::Case(CaseChange::Swapcase) => "bytes.swapcase"@,
        BytesMethod::Test(BytesPredicate::Isalpha) => "bytes.isalpha"@,
        BytesMethod::Test(BytesPredicate::Isdigit) => "bytes.isdigit"@,
        BytesMethod::Test(BytesPredicate::Isalnum) => "bytes.isalnum"@,
        BytesMethod::Test(BytesPredicate::Isspace) => "bytes.isspace"@,
        BytesMethod::Test(BytesPredicate::Islower) => "bytes.islower"@,
        BytesMethod::Test(BytesPredicate::Isupper) => "bytes.isupper"@,
        BytesMethod::Test(BytesPredicate::Isascii) => "bytes.isascii"@,
        BytesMethod::Test(BytesPredicate::Istitle) => "bytes.istitle"@,
        BytesMethod::Count => "bytes.count"@,
        BytesMethod::Find => "bytes.find"@,
        BytesMethod::Rfind => "bytes.rfind"@,
        BytesMethod::Index => "bytes.index"@,
        BytesMethod::Rindex => "bytes.rindex"@,
        BytesMethod::Startswith => "bytes.startswith"@,
        BytesMethod::Endswith => "bytes.endswith"@,
        BytesMethod::Strip(StripSide::Both) => "bytes.strip"@,
        BytesMethod::Strip(StripSide::Start) => "bytes.lstrip"@,
        BytesMethod::Strip(StripSide::End) => "bytes.rstrip"@,
        BytesMethod::Removeprefix => "bytes.removeprefix"@,
        BytesMethod::Removesuffix => "bytes.removesuffix"@,
        BytesMethod::Split => "bytes.split"@,
        BytesMethod::Rsplit => "bytes.rsplit"@,
        BytesMethod::Splitlines => "bytes.splitlines"@,
        BytesMethod::Partition => "bytes.partition"@,
        BytesMethod::Rpartition => "bytes.rpartition"@,
        BytesMethod::Replace => "bytes.replace"@,
        BytesMethod::Justify(Justify::Center) => "bytes.center"@,
        BytesMethod::Justify(Justify::Left) => "bytes.ljust"@,
        BytesMethod::Justify(Justify::Right) => "bytes.rjust"@,
        BytesMethod::Justify(Justify::Zeros) => "bytes.zfill"@,
        BytesMethod::Join => "bytes.join"@,
        BytesMethod::Hex => "bytes.hex"@,
        BytesMethod::Fromhex => "bytes.fromhex"@,
    }
}

/// The name of a method, behind that of its type.
pub fn name_of_method(method: BytesMethod) -> (name: &'static str)
    ensures
        name@ == method_name(method),
{
    match method {
        BytesMethod::Decode => "bytes.decode",
        BytesMethod::Case(change) => match change {
            CaseChange::Lower => "bytes.lower",
            CaseChange::Upper => "bytes.upper",
            CaseChange::Capitalize => "bytes.capitalize",
            CaseChange::Title => "bytes.title",
            CaseChange::Swapcase => "bytes.swapcase",
        },
        BytesMethod::Test(predicate) => match predicate {
            BytesPredicate::Isalpha => "bytes.isalpha",
            BytesPredicate::Isdigit => "bytes.isdigit",
            BytesPredicate::Isalnum => "bytes.isalnum",
            BytesPredicate::Isspace => "bytes.isspace",
            BytesPredicate::Islower => "bytes.islower",
            BytesPredicate::Isupper => "bytes.isupper",
            BytesPredicate::Isascii => "bytes.isascii",
            BytesPredicate::Istitle => "bytes.istitle",
        },
        BytesMethod::Count => "bytes.count",
        BytesMethod::Find => "bytes.find",
        BytesMethod::Rfind => "bytes.rfind",
        BytesMethod::Index => "bytes.index",
        BytesMethod::Rindex => "bytes.rindex",
        BytesMethod::Startswith => "bytes.startswith",
        BytesMethod::Endswith => "bytes.endswith",
        BytesMethod::Strip(side) => match side {
            StripSide::Both => "bytes.strip",
            StripSide::Start => "bytes.lstrip",
            StripSide::End => "bytes.rstrip",
        },
        BytesMethod::Removeprefix => "bytes.removeprefix",
        BytesMethod::Removesuffix => "bytes.removesuffix",
        BytesMethod::Split => "bytes.split",
        BytesMethod::Rsplit => "bytes.rsplit",
        BytesMethod::Splitlines => "bytes.splitlines",
        BytesMethod::Partition => "bytes.partition",
        BytesMethod::Rpartition => "bytes.rpartition",
        BytesMethod::Replace => "bytes.replace",
        BytesMethod::Justify(how) => match how {
            Justify::Center => "bytes.center",
            Justify::Left => "bytes.ljust",
            Justify::Right => "bytes.rjust",
            Justify::Zeros => "bytes.zfill",
        },
        BytesMethod::Join => "bytes.join",
        BytesMethod::Hex => "bytes.hex",
        BytesMethod::Fromhex => "bytes.fromhex",
    }
}

/// The method with this name, without that of its type.
pub open spec fn method_called(name: Seq<char>) -> Option<BytesMethod> {
    if name == "decode"@ {
        Some(BytesMethod::Decode)
    } else if name == "lower"@ {
        Some(BytesMethod::Case(CaseChange::Lower))
    } else if name == "upper"@ {
        Some(BytesMethod::Case(CaseChange::Upper))
    } else if name == "capitalize"@ {
        Some(BytesMethod::Case(CaseChange::Capitalize))
    } else if name == "title"@ {
        Some(BytesMethod::Case(CaseChange::Title))
    } else if name == "swapcase"@ {
        Some(BytesMethod::Case(CaseChange::Swapcase))
    } else if name == "isalpha"@ {
        Some(BytesMethod::Test(BytesPredicate::Isalpha))
    } else if name == "isdigit"@ {
        Some(BytesMethod::Test(BytesPredicate::Isdigit))
    } else if name == "isalnum"@ {
        Some(BytesMethod::Test(BytesPredicate::Isalnum))
    } else if name == "isspace"@ {
        Some(BytesMethod::Test(BytesPredicate::Isspace))
    } else if name == "islower"@ {
        Some(BytesMethod::Test(BytesPredicate::Islower))
    } else if name == "isupper"@ {
        Some(BytesMethod::Test(BytesPredicate::Isupper))
    } else if name == "isascii"@ {
        Some(BytesMethod::Test(BytesPredicate::Isascii))
    } else if name == "istitle"@ {
        Some(BytesMethod::Test(BytesPredicate::Istitle))
    } else {
        searching_method(name)
    }
}

/// The method with this name, of those that search, strip or split.
pub open spec fn searching_method(name: Seq<char>) -> Option<BytesMethod> {
    if name == "count"@ {
        Some(BytesMethod::Count)
    } else if name == "find"@ {
        Some(BytesMethod::Find)
    } else if name == "rfind"@ {
        Some(BytesMethod::Rfind)
    } else if name == "index"@ {
        Some(BytesMethod::Index)
    } else if name == "rindex"@ {
        Some(BytesMethod::Rindex)
    } else if name == "startswith"@ {
        Some(BytesMethod::Startswith)
    } else if name == "endswith"@ {
        Some(BytesMethod::Endswith)
    } else if name == "strip"@ {
        Some(BytesMethod::Strip(StripSide::Both))
    } else if name == "lstrip"@ {
        Some(BytesMethod::Strip(StripSide::Start))
    } else if name == "rstrip"@ {
        Some(BytesMethod::Strip(StripSide::End))
    } else if name == "removeprefix"@ {
        Some(BytesMethod::Removeprefix)
    } else if name == "removesuffix"@ {
        Some(BytesMethod::Removesuffix)
    } else if name == "split"@ {
        Some(BytesMethod::Split)
    } else if name == "rsplit"@ {
        Some(BytesMethod::Rsplit)
    } else if name == "splitlines"@ {
        Some(BytesMethod::Splitlines)
    } else if name == "partition"@ {
        Some(BytesMethod::Partition)
    } else if name == "rpartition"@ {
        Some(BytesMethod::Rpartition)
    } else {
        building_method(name)
    }
}

/// The method with this name, of those that build something new.
pub open spec fn building_method(name: Seq<char>) -> Option<BytesMethod> {
    if name == "replace"@ {
        Some(BytesMethod::Replace)
    } else if name == "center"@ {
        Some(BytesMethod::Justify(Justify::Center))
    } else if name == "ljust"@ {
        Some(BytesMethod::Justify(Justify::Left))
    } else if name == "rjust"@ {
        Some(BytesMethod::Justify(Justify::Right))
    } else if name == "zfill"@ {
        Some(BytesMethod::Justify(Justify::Zeros))
    } else if name == "join"@ {
        Some(BytesMethod::Join)
    } else if name == "hex"@ {
        Some(BytesMethod::Hex)
    } else if name == "fromhex"@ {
        Some(BytesMethod::Fromhex)
    } else {
        None
    }
}

/// Finds the method with a name.
pub fn find_method(name: &str) -> (method: Option<BytesMethod>)
    ensures
        method == method_called(name@),
{
    if same_text(name, "decode") {
        Some(BytesMethod::Decode)
    } else if same_text(name, "lower") {
        Some(BytesMethod::Case(CaseChange::Lower))
    } else if same_text(name, "upper") {
        Some(BytesMethod::Case(CaseChange::Upper))
    } else if same_text(name, "capitalize") {
        Some(BytesMethod::Case(CaseChange::Capitalize))
    } else if same_text(name, "title") {
        Some(BytesMethod::Case(CaseChange::Title))
    } else if same_text(name, "swapcase") {
        Some(BytesMethod::Case(CaseChange::Swapcase))
    } else if same_text(name, "isalpha") {
        Some(BytesMethod::Test(BytesPredicate::Isalpha))
    } else if same_text(name, "isdigit") {
        Some(BytesMethod::Test(BytesPredicate::Isdigit))
    } else if same_text(name, "isalnum") {
        Some(BytesMethod::Test(BytesPredicate::Isalnum))
    } else if same_text(name, "isspace") {
        Some(BytesMethod::Test(BytesPredicate::Isspace))
    } else if same_text(name, "islower") {
        Some(BytesMethod::Test(BytesPredicate::Islower))
    } else if same_text(name, "isupper") {
        Some(BytesMethod::Test(BytesPredicate::Isupper))
    } else if same_text(name, "isascii") {
        Some(BytesMethod::Test(BytesPredicate::Isascii))
    } else if same_text(name, "istitle") {
        Some(BytesMethod::Test(BytesPredicate::Istitle))
    } else {
        find_searching_method(name)
    }
}

fn find_searching_method(name: &str) -> (method: Option<BytesMethod>)
    ensures
        method == searching_method(name@),
{
    if same_text(name, "count") {
        Some(BytesMethod::Count)
    } else if same_text(name, "find") {
        Some(BytesMethod::Find)
    } else if same_text(name, "rfind") {
        Some(BytesMethod::Rfind)
    } else if same_text(name, "index") {
        Some(BytesMethod::Index)
    } else if same_text(name, "rindex") {
        Some(BytesMethod::Rindex)
    } else if same_text(name, "startswith") {
        Some(BytesMethod::Startswith)
    } else if same_text(name, "endswith") {
        Some(BytesMethod::Endswith)
    } else if same_text(name, "strip") {
        Some(BytesMethod::Strip(StripSide::Both))
    } else if same_text(name, "lstrip") {
        Some(BytesMethod::Strip(StripSide::Start))
    } else if same_text(name, "rstrip") {
        Some(BytesMethod::Strip(StripSide::End))
    } else if same_text(name, "removeprefix") {
        Some(BytesMethod::Removeprefix)
    } else if same_text(name, "removesuffix") {
        Some(BytesMethod::Removesuffix)
    } else if same_text(name, "split") {
        Some(BytesMethod::Split)
    } else if same_text(name, "rsplit") {
        Some(BytesMethod::Rsplit)
    } else if same_text(name, "splitlines") {
        Some(BytesMethod::Splitlines)
    } else if same_text(name, "partition") {
        Some(BytesMethod::Partition)
    } else if same_text(name, "rpartition") {
        Some(BytesMethod::Rpartition)
    } else {
        find_building_method(name)
    }
}

fn find_building_method(name: &str) -> (method: Option<BytesMethod>)
    ensures
        method == building_method(name@),
{
    if same_text(name, "replace") {
        Some(BytesMethod::Replace)
    } else if same_text(name, "center") {
        Some(BytesMethod::Justify(Justify::Center))
    } else if same_text(name, "ljust") {
        Some(BytesMethod::Justify(Justify::Left))
    } else if same_text(name, "rjust") {
        Some(BytesMethod::Justify(Justify::Right))
    } else if same_text(name, "zfill") {
        Some(BytesMethod::Justify(Justify::Zeros))
    } else if same_text(name, "join") {
        Some(BytesMethod::Join)
    } else if same_text(name, "hex") {
        Some(BytesMethod::Hex)
    } else if same_text(name, "fromhex") {
        Some(BytesMethod::Fromhex)
    } else {
        None
    }
}

/// The bytes that a value must hold.
pub open spec fn bytes_only(vm: VmModel, value: Value) -> Result<Seq<u8>, ErrorModel> {
    match vm.bytes_of(value) {
        Some(bytes) => Ok(bytes),
        None => if vm.text_of(value) is Some {
            Err(type_error_model("a bytes-like object is required, not 'str'"@))
        } else {
            Err(type_error_model("a bytes-like object is required"@))
        },
    }
}

/// Reads the bytes that a value must hold.
pub fn extract_bytes_only<'a>(value: Value, vm: &'a VM) -> (bytes: RunResult<&'a [u8]>)
    requires
        vm@.holds(value),
    ensures
        match (bytes, bytes_only(vm@, value)) {
            (Ok(bytes), Ok(expected)) => bytes@ == expected,
            (Err(error), Err(expected)) => error@ == expected,
            _ => false,
        },
{
    match vm.get_bytes(value) {
        Some(bytes) => Ok(bytes),
        None => {
            if vm.get_text(value).is_some() {
                Err(type_error("a bytes-like object is required, not 'str'"))
            } else {
                Err(type_error("a bytes-like object is required"))
            }
        },
    }
}

/// The range of a sequence that the arguments from the second on name.
pub open spec fn range_args(vm: VmModel, pos: Seq<Value>, len: int) -> Result<(int, int), ErrorModel> {
    if pos.len() < 2 {
        Ok((0, len))
    } else {
        match vm.int_of(pos[1]) {
            Err(error) => Err(error),
            Ok(first) => {
                let start = clamped(first as int, len);
                if pos.len() < 3 {
                    Ok((start, len))
                } else {
                    match vm.int_of(pos[2]) {
                        Err(error) => Err(error),
                        Ok(last) => {
                            let end = clamped(last as int, len);
                            Ok(
                                (
                                    start,
                                    if end < start {
                                        start
                                    } else {
                                        end
                                    },
                                ),
                            )
                        },
                    }
                }
            },
        }
    }
}

/// Reads the range of a sequence that the arguments from the second on name.
/// It never ends before it starts.
fn parse_range_args(vm: &VM, pos: &Vec<Value>, len: usize) -> (range: RunResult<(usize, usize)>)
    requires
        1 <= pos@.len() <= 3,
        vm@.holds_all(pos@),
    ensures
        match (range, range_args(vm@, pos@, len as int)) {
            (Ok(range), Ok(expected)) => range.0 == expected.0 && range.1 == expected.1 && range.0 <= range.1
                && range.1 <= len,
            (Err(error), Err(expected)) => error@ == expected,
            _ => false,
        },
{
    if pos.len() < 2 {
        return Ok((0, len));
    }
    let start: usize = normalize_sequence_index(vm.as_int(pos[1])?, len);
    if pos.len() < 3 {
        return Ok((start, len));
    }
    let end: usize = normalize_sequence_index(vm.as_int(pos[2])?, len);
    if end < start {
        Ok((start, start))
    } else {
        Ok((start, end))
    }
}

/// The arguments by position of a method that takes one to three.
pub open spec fn one_to_three(name: Seq<char>, args: ArgsModel) -> Result<Seq<Value>, ErrorModel> {
    match pos_only(name, args) {
        Err(error) => Err(error),
        Ok(pos) => if pos.len() == 0 {
            Err(at_least_error(name, 0))
        } else if pos.len() > 3 {
            Err(at_most_error(name, 3, pos.len()))
        } else {
            Ok(pos)
        },
    }
}

fn one_to_three_args<'a>(name: &str, args: &'a ArgValues) -> (pos: RunResult<&'a Vec<Value>>)
    ensures
        match (pos, one_to_three(name@, args@)) {
            (Ok(pos), Ok(expected)) => pos@ == expected && 1 <= pos@.len() <= 3,
            (Err(error), Err(expected)) => error@ == expected,
            _ => false,
        },
{
    let pos = args.into_pos_only(name)?;
    if pos.len() == 0 {
        return Err(type_error_at_least(name, 0));
    }
    if pos.len() > 3 {
        return Err(type_error_at_most(name, 3, pos.len()));
    }
    Ok(pos)
}

/// The pattern and the range of the methods that search.
pub open spec fn sub_args(vm: VmModel, name: Seq<char>, len: int, args: ArgsModel) -> Result<
    (Seq<u8>, int, int),
    ErrorModel,
> {
    match one_to_three(name, args) {
        Err(error) => Err(error),
        Ok(pos) => match bytes_only(vm, pos[0]) {
            Err(error) => Err(error),
            Ok(sub) => match range_args(vm, pos, len) {
                Err(error) => Err(error),
                Ok((start, end)) => Ok((sub, start, end)),
            },
        },
    }
}

/// Reads the pattern and the range of the methods that search.
pub fn parse_bytes_sub_args<'a>(name: &str, len: usize, args: &ArgValues, vm: &'a VM) -> (parsed: RunResult<
    (&'a [u8], usize, usize),
>)
    requires
        holds_args(vm@, args@),
    ensures
        match (parsed, sub_args(vm@, name@, len as int, args@)) {
            (Ok(parsed), Ok(expected)) => parsed.0@ == expected.0 && parsed.1 == expected.1 && parsed.2 == expected.2
                && parsed.1 <= parsed.2 && parsed.2 <= len,
            (Err(error), Err(expected)) => error@ == expected,
            _ => false,
        },
{
    let pos = one_to_three_args(name, args)?;
    let sub = extract_bytes_only(pos[0], vm)?;
    let (start, end) = parse_range_args(vm, pos, len)?;
    Ok((sub, start, end))
}

/// How often a pattern stands in a byte string. An empty one stands before
/// each byte and behind the last.
pub open spec fn counted(bytes: Seq<u8>, sub: Seq<u8>) -> int {
    if sub.len() == 0 {
        (bytes.len() + 1) as int
    } else {
        count_from(bytes, sub, 0) as int
    }
}

/// `count`.
pub open spec fn count_model(vm: VmModel, bytes: Seq<u8>, args: ArgsModel) -> Outcome {
    match sub_args(vm, "bytes.count"@, bytes.len() as int, args) {
        Err(error) => Err(error),
        Ok((sub, start, end)) => Ok(MadeModel::Plain(Value::Int(counted(bytes.subrange(start, end), sub) as i64))),
    }
}

/// Counts the places of a pattern.
pub fn bytes_count(bytes: &[u8], args: &ArgValues, vm: &VM) -> (result: RunResult<Made>)
    requires
        holds_args(vm@, args@),
        bytes@.len() < i64::MAX,
    ensures
        makes_in_time(vm@.tracker, result, count_model(vm@, bytes@, args@)),
{
    let (sub, start, end) = match parse_bytes_sub_args("bytes.count", bytes.len(), args, vm) {
        Ok(parsed) => parsed,
        Err(error) => return Err(error),
    };
    let part = slice_subrange(bytes, start, end);
    let count: i64 = if sub.len() == 0 {
        part.len() as i64 + 1
    } else {
        match count_non_overlapping(part, sub, &vm.tracker) {
            Ok(count) => count as i64,
            Err(limit) => return Err(stop(&vm.tracker, limit)),
        }
    };
    Ok(Made::Plain(Value::Int(count)))
}

/// The first or the last place of a pattern in a range of a byte string. An
/// empty one stands at the range's start and at its end.
pub open spec fn found_in(bytes: Seq<u8>, sub: Seq<u8>, start: int, end: int, last: bool) -> Option<int> {
    let part = bytes.subrange(start, end);
    let place = if sub.len() == 0 {
        Some(
            if last {
                end - start
            } else {
                0
            },
        )
    } else if last {
        last_before(part, sub, part.len() as int)
    } else {
        first_from(part, sub, 0)
    };
    match place {
        Some(at) => Some(start + at),
        None => None,
    }
}

/// `find` and `rfind`, and `index` and `rindex`, which fail where nothing is
/// found.
pub open spec fn search_model(
    vm: VmModel,
    name: Seq<char>,
    bytes: Seq<u8>,
    args: ArgsModel,
    last: bool,
    must: bool,
) -> Outcome {
    match sub_args(vm, name, bytes.len() as int, args) {
        Err(error) => Err(error),
        Ok((sub, start, end)) => match found_in(bytes, sub, start, end, last) {
            Some(at) => Ok(MadeModel::Plain(Value::Int(at as i64))),
            None => if must {
                Err(value_error_model("subsection not found"@))
            } else {
                Ok(MadeModel::Plain(Value::Int((-1) as i64)))
            },
        },
    }
}

/// Finds the first or the last place of a pattern.
pub fn bytes_search(name: &str, bytes: &[u8], args: &ArgValues, vm: &VM, last: bool, must: bool) -> (result: RunResult<Made>)
    requires
        holds_args(vm@, args@),
        bytes@.len() < i64::MAX,
    ensures
        makes_in_time(vm@.tracker, result, search_model(vm@, name@, bytes@, args@, last, must)),
{
    let (sub, start, end) = match parse_bytes_sub_args(name, bytes.len(), args, vm) {
        Ok(parsed) => parsed,
        Err(error) => return Err(error),
    };
    let part = slice_subrange(bytes, start, end);
    proof {
        lemma_first_from(part@, sub@, 0);
        if sub@.len() > 0 {
            lemma_last_before(part@, sub@, part@.len() as int);
        }
    }
    let place: Option<usize> = if sub.len() == 0 {
        Some(
            if last {
                part.len()
            } else {
                0
            },
        )
    } else {
        let found = if last {
            rfind_subsequence(part, sub, &vm.tracker)
        } else {
            find_subsequence(part, sub, &vm.tracker)
        };
        match found {
            Ok(place) => place,
            Err(limit) => return Err(stop(&vm.tracker, limit)),
        }
    };
    match place {
        Some(at) => {
            assert(at <= part@.len());
            Ok(Made::Plain(Value::Int((start + at) as i64)))
        },
        None => {
            if must {
                Err(value_error("subsection not found"))
            } else {
                Ok(Made::Plain(Value::Int(-1)))
            }
        },
    }
}

/// The byte strings that the items of a tuple hold, from `i` on.
pub open spec fn tuple_affixes(vm: VmModel, name: Seq<char>, items: Seq<Value>, i: int) -> Result<
    Seq<Seq<u8>>,
    ErrorModel,
>
    decreases items.len() - i,
{
    if i < 0 || i >= items.len() {
        Ok(Seq::empty())
    } else {
        match vm.bytes_of(items[i]) {
            None => Err(
                type_error_model(
                    name + " first arg must be bytes or a tuple of bytes, not tuple containing "@ + vm.name_of_type(
                        items[i],
                    ) + " at index "@ + decimal(i as nat),
                ),
            ),
            Some(bytes) => match tuple_affixes(vm, name, items, i + 1) {
                Ok(rest) => Ok(seq![bytes] + rest),
                Err(error) => Err(error),
            },
        }
    }
}

/// The byte strings to look for: one, or the items of a tuple.
pub open spec fn affixes(vm: VmModel, name: Seq<char>, value: Value) -> Result<Seq<Seq<u8>>, ErrorModel> {
    match vm.bytes_of(value) {
        Some(bytes) => Ok(seq![bytes]),
        None => match value {
            Value::Ref(id) => match vm.heap[id as int] {
                DataModel::Tuple(items) => tuple_affixes(vm, name, items, 0),
                _ => Err(
                    type_error_model(
                        name + " first arg must be bytes or a tuple of bytes, not "@ + vm.name_of_type(value),
                    ),
                ),
            },
            _ => Err(
                type_error_model(name + " first arg must be bytes or a tuple of bytes, not "@ + vm.name_of_type(value)),
            ),
        },
    }
}

/// Reads the byte strings that the items of a tuple hold.
fn extract_tuple_affixes(name: &str, items: &Vec<Value>, vm: &VM) -> (list: RunResult<Vec<Vec<u8>>>)
    requires
        vm@.holds_all(items@),
    ensures
        match (list, tuple_affixes(vm@, name@, items@, 0)) {
            (Ok(list), Ok(expected)) => all_bytes(list@) == expected,
            (Err(error), Err(expected)) => error@ == expected,
            _ => false,
        },
{
    let mut list: Vec<Vec<u8>> = Vec::new();
    let mut i: usize = 0;
    let ghost whole = tuple_affixes(vm@, name@, items@, 0);
    proof {
        match whole {
            Ok(all) => assert(all_bytes(list@) + all =~= all),
            Err(_) => {},
        }
    }
    while i < items.len()
        invariant
            i <= items@.len(),
            vm@.holds_all(items@),
            whole == tuple_affixes(vm@, name@, items@, 0),
            match (whole, tuple_affixes(vm@, name@, items@, i as int)) {
                (Ok(all), Ok(rest)) => all == all_bytes(list@) + rest,
                (Err(error), Err(same)) => error == same,
                _ => false,
            },
        decreases items@.len() - i,
    {
        match vm.get_bytes(items[i]) {
            None => {
                let mut text = name.to_owned();
                text.append(" first arg must be bytes or a tuple of bytes, not tuple containing ");
                text.append(vm.py_type_name(items[i]));
                text.append(" at index ");
                text.append(decimal_text(i as u64).as_str());
                return Err(type_error(text.as_str()));
            },
            Some(bytes) => {
                let ghost before = list@;
                let item = slice_to_vec(bytes);
                list.push(item);
                proof {
                    assert(all_bytes(list@) =~= all_bytes(before).push(item@));
                    match tuple_affixes(vm@, name@, items@, i + 1) {
                        Ok(rest) => assert(all_bytes(before) + (seq![item@] + rest) =~= all_bytes(list@) + rest),
                        Err(_) => {},
                    }
                }
            },
        }
        i = i + 1;
    }
    proof {
        assert(all_bytes(list@) + Seq::<Seq<u8>>::empty() =~= all_bytes(list@));
    }
    Ok(list)
}

/// Reads the byte strings to look for: one, or the items of a tuple.
pub fn extract_bytes_for_prefix_suffix(value: Value, name: &str, vm: &VM) -> (list: RunResult<Vec<Vec<u8>>>)
    requires
        vm@.holds(value),
        vm@.wf(),
    ensures
        match (list, affixes(vm@, name@, value)) {
            (Ok(list), Ok(expected)) => all_bytes(list@) == expected,
            (Err(error), Err(expected)) => error@ == expected,
            _ => false,
        },
{
    match vm.get_bytes(value) {
        Some(bytes) => {
            let mut list: Vec<Vec<u8>> = Vec::new();
            let item = slice_to_vec(bytes);
            list.push(item);
            assert(all_bytes(list@) =~= seq![item@]);
            return Ok(list);
        },
        None => {},
    }
    match value {
        Value::Ref(id) => match &vm.heap[id] {
            HeapData::Tuple(items) => {
                assert(vm@.data_wf(vm@.heap[id as int]));
                return extract_tuple_affixes(name, items, vm);
            },
            _ => {},
        },
        _ => {},
    }
    let mut text = name.to_owned();
    text.append(" first arg must be bytes or a tuple of bytes, not ");
    text.append(vm.py_type_name(value));
    Err(type_error(text.as_str()))
}

/// One of the byte strings stands at the start, or at the end, of the bytes.
pub open spec fn any_affix(bytes: Seq<u8>, list: Seq<Seq<u8>>, at_end: bool) -> bool {
    exists|i: int|
        0 <= i < list.len() && if at_end {
            has_suffix(bytes, #[trigger] list[i])
        } else {
            has_prefix(bytes, list[i])
        }
}

/// `startswith` and `endswith`.
pub open spec fn affix_model(vm: VmModel, bytes: Seq<u8>, args: ArgsModel, at_end: bool) -> Outcome {
    let (name, short) = if at_end {
        ("bytes.endswith"@, "endswith"@)
    } else {
        ("bytes.startswith"@, "startswith"@)
    };
    match one_to_three(name, args) {
        Err(error) => Err(error),
        Ok(pos) => match affixes(vm, short, pos[0]) {
            Err(error) => Err(error),
            Ok(list) => match range_args(vm, pos, bytes.len() as int) {
                Err(error) => Err(error),
                Ok((start, end)) => Ok(
                    MadeModel::Plain(Value::Bool(any_affix(bytes.subrange(start, end), list, at_end))),
                ),
            },
        },
    }
}

/// Says whether one of the byte strings stands at an end of the bytes.
fn test_affixes(bytes: &[u8], list: &Vec<Vec<u8>>, at_end: bool) -> (found: bool)
    ensures
        found == any_affix(bytes@, all_bytes(list@), at_end),
{
    let mut i: usize = 0;
    while i < list.len()
        invariant
            i <= list@.len(),
            forall|j: int|
                0 <= j < i ==> !(if at_end {
                    has_suffix(bytes@, #[trigger] all_bytes(list@)[j])
                } else {
                    has_prefix(bytes@, all_bytes(list@)[j])
                }),
        decreases list@.len() - i,
    {
        let here: bool = if at_end {
            ends_with(bytes, list[i].as_slice())
        } else {
            starts_with(bytes, list[i].as_slice())
        };
        assert(all_bytes(list@)[i as int] == list@[i as int]@);
        if here {
            return true;
        }
        i = i + 1;
    }
    false
}

/// Tests the start or the end of a byte string.
pub fn bytes_test_affix(bytes: &[u8], args: &ArgValues, vm: &VM, at_end: bool) -> (result: RunResult<Made>)
    requires
        holds_args(vm@, args@),
        vm@.wf(),
    ensures
        makes(result, affix_model(vm@, bytes@, args@, at_end)),
{
    let name = if at_end {
        "bytes.endswith"
    } else {
        "bytes.startswith"
    };
    let short = if at_end {
        "endswith"
    } else {
        "startswith"
    };
    let pos = one_to_three_args(name, args)?;
    let list = extract_bytes_for_prefix_suffix(pos[0], short, vm)?;
    let (start, end) = parse_range_args(vm, pos, bytes.len())?;
    Ok(Made::Plain(Value::Bool(test_affixes(slice_subrange(bytes, start, end), &list, at_end))))
}

/// `strip`, `lstrip` and `rstrip`.
pub open spec fn strip_model(vm: VmModel, side: StripSide, bytes: Seq<u8>, args: ArgsModel) -> Outcome {
    match zero_one_arg(method_name(BytesMethod::Strip(side)), args) {
        Err(error) => Err(error),
        Ok(value) => match value {
            None | Some(Value::NoneValue) => Ok(MadeModel::Bytes(stripped(side, bytes, None))),
            Some(value) => match bytes_only(vm, value) {
                Err(error) => Err(error),
                Ok(chars) => Ok(MadeModel::Bytes(stripped(side, bytes, Some(chars)))),
            },
        },
    }
}

/// Strips the ends of a byte string.
pub fn bytes_strip(side: StripSide, bytes: &[u8], args: &ArgValues, vm: &VM) -> (result: RunResult<Made>)
    requires
        holds_args(vm@, args@),
    ensures
        makes(result, strip_model(vm@, side, bytes@, args@)),
{
    let value = args.get_zero_one_arg(name_of_method(BytesMethod::Strip(side)))?;
    match value {
        None | Some(Value::NoneValue) => Ok(Made::Bytes(bytes_strip_ends(side, bytes, None))),
        Some(value) => {
            let chars = extract_bytes_only(value, vm)?;
            Ok(Made::Bytes(bytes_strip_ends(side, bytes, Some(chars))))
        },
    }
}

/// `removeprefix` and `removesuffix`.
pub open spec fn remove_model(vm: VmModel, bytes: Seq<u8>, args: ArgsModel, at_end: bool) -> Outcome {
    match one_arg(
        if at_end {
            "bytes.removesuffix"@
        } else {
            "bytes.removeprefix"@
        },
        args,
    ) {
        Err(error) => Err(error),
        Ok(value) => match bytes_only(vm, value) {
            Err(error) => Err(error),
            Ok(affix) => Ok(
                MadeModel::Bytes(
                    if at_end && has_suffix(bytes, affix) {
                        bytes.subrange(0, bytes.len() - affix.len())
                    } else if !at_end && has_prefix(bytes, affix) {
                        bytes.subrange(affix.len() as int, bytes.len() as int)
                    } else {
                        bytes
                    },
                ),
            ),
        },
    }
}

/// Removes a prefix or a suffix.
pub fn bytes_remove_affix(bytes: &[u8], args: &ArgValues, vm: &VM, at_end: bool) -> (result: RunResult<Made>)
    requires
        holds_args(vm@, args@),
    ensures
        makes(result, remove_model(vm@, bytes@, args@, at_end)),
{
    let value = args.get_one_arg(
        if at_end {
            "bytes.removesuffix"
        } else {
            "bytes.removeprefix"
        },
    )?;
    let affix = extract_bytes_only(value, vm)?;
    if at_end && ends_with(bytes, affix) {
        Ok(Made::Bytes(copied(bytes, 0, bytes.len() - affix.len())))
    } else if !at_end && starts_with(bytes, affix) {
        Ok(Made::Bytes(copied(bytes, affix.len(), bytes.len())))
    } else {
        Ok(Made::Bytes(slice_to_vec(bytes)))
    }
}

/// A default in place of an argument that was not given.
pub open spec fn or_default(value: Option<Value>, default: Value) -> Value {
    match value {
        Some(value) => value,
        None => default,
    }
}

pub fn value_or(value: Option<Value>, default: Value) -> (chosen: Value)
    ensures
        chosen == or_default(value, default),
{
    match value {
        Some(value) => value,
        None => default,
    }
}

/// The parameters of `split` and `rsplit`.
pub open spec fn split_params() -> Seq<Seq<char>> {
    seq!["sep"@, "maxsplit"@]
}

/// `split` and `rsplit`.
pub open spec fn split_model(vm: VmModel, bytes: Seq<u8>, args: ArgsModel, from_right: bool) -> Outcome {
    let name = if from_right {
        "rsplit"@
    } else {
        "split"@
    };
    match bound_args(name, split_params(), 0, args) {
        Err(error) => Err(error),
        Ok(slots) => {
            let sep = or_default(slots[0], Value::NoneValue);
            let max = or_default(slots[1], Value::Int((-1) as i64));
            let wanted = if sep is NoneValue {
                Ok(None)
            } else {
                match bytes_only(vm, sep) {
                    Ok(bytes) => Ok(Some(bytes)),
                    Err(error) => Err(error),
                }
            };
            match wanted {
                Err(error) => Err(error),
                Ok(sep) => match vm.int_of(max) {
                    Err(error) => Err(error),
                    Ok(max) => split_outcome(bytes, sep, max as int, from_right),
                },
            }
        },
    }
}

/// The parts of a byte string. A negative number of splits is no bound.
pub open spec fn split_outcome(bytes: Seq<u8>, sep: Option<Seq<u8>>, max: int, from_right: bool) -> Outcome {
    match sep {
        Some(sep) => if sep.len() == 0 {
            Err(value_error_model("empty separator"@))
        } else if max < 0 {
            Ok(MadeModel::Parts(split_from(bytes, sep, 0, None)))
        } else if from_right {
            Ok(MadeModel::Parts(rsplit_before(bytes, sep, bytes.len() as int, max as nat)))
        } else {
            Ok(MadeModel::Parts(split_from(bytes, sep, 0, Some(max as nat))))
        },
        None => if max < 0 {
            Ok(MadeModel::Parts(words_from(bytes, 0, None)))
        } else if from_right {
            Ok(MadeModel::Parts(words_before(bytes, bytes.len() as int, max as nat)))
        } else {
            Ok(MadeModel::Parts(words_from(bytes, 0, Some(max as nat))))
        },
    }
}

/// The values in the slots of bound arguments exist.
proof fn lemma_bound_args_hold(
    vm: VmModel,
    name: Seq<char>,
    params: Seq<Seq<char>>,
    by_position: nat,
    slots: Seq<Option<Value>>,
    keywords: Seq<(Seq<char>, Value)>,
    i: int,
)
    requires
        slots.len() == params.len(),
        forall|j: int| 0 <= j < slots.len() ==> (#[trigger] slots[j] matches Some(value) ==> vm.holds(value)),
        forall|j: int| 0 <= j < keywords.len() ==> vm.holds((#[trigger] keywords[j]).1),
    ensures
        match crate::args::with_keywords(name, params, by_position, slots, keywords, i) {
            Ok(bound) => forall|j: int|
                0 <= j < bound.len() ==> (#[trigger] bound[j] matches Some(value) ==> vm.holds(value)),
            Err(_) => true,
        },
    decreases keywords.len() - i,
{
    if i < 0 || i >= keywords.len() {
    } else {
        match crate::args::place_of(params, keywords[i].0, 0) {
            None => {},
            Some(at) => {
                lemma_place_of(params, keywords[i].0, 0);
                if !(slots[at] is Some) {
                    lemma_bound_args_hold(
                        vm,
                        name,
                        params,
                        by_position,
                        slots.update(at, Some(keywords[i].1)),
                        keywords,
                        i + 1,
                    );
                }
            },
        }
    }
}

/// A place found in a list of names is one of the list.
proof fn lemma_place_of(names: Seq<Seq<char>>, name: Seq<char>, from: int)
    ensures
        crate::args::place_of(names, name, from) matches Some(at) ==> 0 <= at < names.len(),
    decreases names.len() - from,
{
    if 0 <= from < names.len() && names[from] != name {
        lemma_place_of(names, name, from + 1);
    }
}

/// Puts the arguments at the places of their parameters. What they name
/// exists.
pub fn bind_held(vm: &VM, args: &ArgValues, name: &str, params: &Vec<&str>, required: usize) -> (slots: RunResult<
    Vec<Option<Value>>,
>)
    requires
        required <= params@.len(),
        holds_args(vm@, args@),
    ensures
        match (slots, bound_args(name@, texts_of(params@), required as int, args@)) {
            (Ok(slots), Ok(expected)) => slots@ == expected && slots@.len() == params@.len() && forall|j: int|
                0 <= j < slots@.len() ==> (#[trigger] slots@[j] matches Some(value) ==> vm@.holds(value)),
            (Err(error), Err(expected)) => error@ == expected,
            _ => false,
        },
{
    proof {
        lemma_bound_args_hold(
            vm@,
            name@,
            texts_of(params@),
            args@.positional.len(),
            crate::args::position_slots(params@.len(), args@.positional),
            args@.keywords,
            0,
        );
    }
    args.bind(name, params, required)
}

/// A number of at least nothing that fits.
pub fn as_count(number: i64) -> (count: usize)
    requires
        number >= 0,
    ensures
        count == number || (count == usize::MAX && number > usize::MAX),
{
    if number as u64 > usize::MAX as u64 {
        usize::MAX
    } else {
        number as usize
    }
}

/// Splits a byte string, from the left or from the right.
pub fn bytes_split(bytes: &[u8], args: &ArgValues, vm: &VM, from_right: bool) -> (result: RunResult<Made>)
    requires
        holds_args(vm@, args@),
    ensures
        makes_in_time(vm@.tracker, result, split_model(vm@, bytes@, args@, from_right)),
{
    let name = if from_right {
        "rsplit"
    } else {
        "split"
    };
    let params = vec!["sep", "maxsplit"];
    assert(texts_of(params@) =~= split_params());
    let slots = match bind_held(vm, args, name, &params, 0) {
        Ok(slots) => slots,
        Err(error) => return Err(error),
    };
    let sep_value = value_or(slots[0], Value::NoneValue);
    let max_value = value_or(slots[1], Value::Int(-1));
    let sep: Option<&[u8]> = match sep_value {
        Value::NoneValue => None,
        _ => match extract_bytes_only(sep_value, vm) {
            Ok(bytes) => Some(bytes),
            Err(error) => return Err(error),
        },
    };
    let max: i64 = match vm.as_int(max_value) {
        Ok(max) => max,
        Err(error) => return Err(error),
    };
    bytes_split_parts(bytes, sep, max, vm, from_right)
}

/// Splits a byte string at a separator or at white space.
fn bytes_split_parts(bytes: &[u8], sep: Option<&[u8]>, max: i64, vm: &VM, from_right: bool) -> (result: RunResult<Made>)
    ensures
        makes_in_time(vm@.tracker, result, split_outcome(bytes@, chars_model(sep), max as int, from_right)),
{
    let total: usize = bytes.len();
    assert(bytes@.len() == total);
    match sep {
        Some(sep) => {
            if sep.len() == 0 {
                return Err(value_error("empty separator"));
            }
            let parts = if max < 0 {
                bytes_split_by_seq(bytes, sep, &vm.tracker)
            } else {
                let count: usize = as_count(max);
                proof {
                    if count != max {
                        lemma_splits_enough(bytes@, sep@, 0, count as nat, max as nat);
                        lemma_rsplits_enough(bytes@, sep@, bytes@.len() as int, count as nat, max as nat);
                    }
                }
                if count == usize::MAX {
                    if from_right {
                        split_at_last(bytes, sep, count, &vm.tracker)
                    } else {
                        split_at_first(bytes, sep, Some(count), &vm.tracker)
                    }
                } else if from_right {
                    bytes_rsplitn_by_seq(bytes, sep, count + 1, &vm.tracker)
                } else {
                    bytes_splitn_by_seq(bytes, sep, count + 1, &vm.tracker)
                }
            };
            match parts {
                Ok(parts) => Ok(Made::Parts(parts)),
                Err(limit) => Err(stop(&vm.tracker, limit)),
            }
        },
        None => {
            if max < 0 {
                Ok(Made::Parts(bytes_split_whitespace(bytes)))
            } else {
                let count: usize = as_count(max);
                proof {
                    if count != max {
                        lemma_words_enough(bytes@, 0, count as nat, max as nat);
                        lemma_rwords_enough(bytes@, bytes@.len() as int, count as nat, max as nat);
                    }
                }
                if from_right {
                    Ok(Made::Parts(bytes_rsplitn_whitespace(bytes, count)))
                } else {
                    Ok(Made::Parts(bytes_splitn_whitespace(bytes, count)))
                }
            }
        },
    }
}

/// More splits than there are bytes make no difference.
proof fn lemma_splits_enough(bytes: Seq<u8>, sep: Seq<u8>, from: int, a: nat, b: nat)
    requires
        0 <= from <= bytes.len(),
        a >= bytes.len() - from,
        b >= bytes.len() - from,
        sep.len() > 0,
    ensures
        split_from(bytes, sep, from, Some(a)) == split_from(bytes, sep, from, Some(b)),
    decreases bytes.len() - from,
{
    lemma_first_from(bytes, sep, from);
    match first_from(bytes, sep, from) {
        Some(at) => {
            if a > 0 && b > 0 {
                lemma_splits_enough(bytes, sep, at + sep.len(), (a - 1) as nat, (b - 1) as nat);
            }
        },
        None => {},
    }
}

/// More splits than there are bytes make no difference.
proof fn lemma_rsplits_enough(bytes: Seq<u8>, sep: Seq<u8>, end: int, a: nat, b: nat)
    requires
        0 <= end <= bytes.len(),
        a >= end,
        b >= end,
        sep.len() > 0,
    ensures
        rsplit_before(bytes, sep, end, a) == rsplit_before(bytes, sep, end, b),
    decreases end,
{
    lemma_last_before(bytes, sep, end);
    match last_before(bytes, sep, end) {
        Some(at) => {
            if a > 0 && b > 0 {
                lemma_rsplits_enough(bytes, sep, at, (a - 1) as nat, (b - 1) as nat);
            }
        },
        None => {},
    }
}

/// More splits than there are bytes make no difference.
proof fn lemma_words_enough(bytes: Seq<u8>, from: int, a: nat, b: nat)
    requires
        0 <= from <= bytes.len(),
        a >= bytes.len() - from,
        b >= bytes.len() - from,
    ensures
        words_from(bytes, from, Some(a)) == words_from(bytes, from, Some(b)),
    decreases bytes.len() - from,
{
    let start = crate::bytes_text::kept_from(bytes, None, from);
    let end = crate::bytes_text::word_end(bytes, start);
    if start < from || start >= bytes.len() {
    } else if end <= start || end > bytes.len() {
    } else {
        lemma_words_enough(bytes, end, (a - 1) as nat, (b - 1) as nat);
    }
}

/// More splits than there are bytes make no difference.
proof fn lemma_rwords_enough(bytes: Seq<u8>, until: int, a: nat, b: nat)
    requires
        0 <= until <= bytes.len(),
        a >= until,
        b >= until,
    ensures
        words_before(bytes, until, a) == words_before(bytes, until, b),
    decreases until,
{
    let end = crate::bytes_text::kept_until(bytes, None, until);
    let start = crate::bytes_text::word_start(bytes, end);
    if end <= 0 || end > until {
    } else if start < 0 || start >= end {
    } else {
        lemma_rwords_enough(bytes, start, (a - 1) as nat, (b - 1) as nat);
    }
}

/// Where an iterator over bytes reads them.
#[derive(Clone, Copy, Debug, PartialEq, Eq, Structural)]
pub enum BytesIteratorSource {
    Intern(BytesId),
    Heap(HeapId),
}

/// An iterator that yields the bytes as integers.
pub struct BytesIterator {
    pub source: BytesIteratorSource,
    pub index: usize,
}

} // verus!
