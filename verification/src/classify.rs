//! Classification of one resolved rustc argument list, and stage-independent arguments.

use vstd::prelude::*;
use vstd::slice::slice_to_vec;
use vstd::string::*;
use vstd::utf8::*;

use crate::interposition::{
    ARGUMENT_DIGEST_LENGTH, ARGUMENT_LIMIT, CRATE_TYPE_LIMIT, FIELD_LIMIT, INPUT_AMBIGUITY_REASON,
    INPUT_CONFLICT_REASON, STAGE_ROOT_PLACEHOLDER,
};
use crate::hash::{frame, framed_digest, is_hex_digit, sha256_text};
use crate::text::{
    after_prefix, bounded_prefix, bounded_text, byte_strings, first_place, has_prefix,
    lemma_ascii_bytes,
    lemma_bounded_ascii, lemma_first_place, optional_text, same_bytes, split_at_first, split_once, suffix, texts, utf8_text,
};

verus! {

/// Classification of one observed rustc invocation.
#[derive(Clone, Copy, Debug, PartialEq, Eq, Structural)]
pub enum InvocationClass {
    TargetCompile,
    HostCompile,
    Probe,
    Other,
}

/// What one argument says, read together with the argument that follows it.
pub enum Meaning {
    Target(Seq<u8>),
    Emit,
    Print,
    CrateName(Option<Seq<u8>>),
    CrateType(Option<Seq<u8>>),
    Codegen(Seq<u8>),
    Other,
}

/// The argument behind place `index`, if there is one.
pub open spec fn next_argument(arguments: Seq<Seq<u8>>, index: int) -> Option<Seq<u8>> {
    if index + 1 < arguments.len() {
        Some(arguments[index + 1])
    } else {
        None
    }
}

/// What the argument at place `index` says.
pub open spec fn meaning(arguments: Seq<Seq<u8>>, index: int) -> Meaning {
    let argument = arguments[index];
    let next = next_argument(arguments, index);
    if argument == encode_utf8("--target"@) {
        match next {
            Some(value) => Meaning::Target(value),
            None => Meaning::Other,
        }
    } else if after_prefix(argument, encode_utf8("--target="@)) is Some {
        Meaning::Target(after_prefix(argument, encode_utf8("--target="@))->0)
    } else if argument == encode_utf8("--emit"@) || encode_utf8("--emit="@).is_prefix_of(argument) {
        Meaning::Emit
    } else if argument == encode_utf8("--print"@) || encode_utf8("--print="@).is_prefix_of(
        argument,
    ) {
        Meaning::Print
    } else if argument == encode_utf8("--crate-name"@) {
        Meaning::CrateName(next)
    } else if after_prefix(argument, encode_utf8("--crate-name="@)) is Some {
        Meaning::CrateName(after_prefix(argument, encode_utf8("--crate-name="@)))
    } else if argument == encode_utf8("--crate-type"@) {
        Meaning::CrateType(next)
    } else if after_prefix(argument, encode_utf8("--crate-type="@)) is Some {
        Meaning::CrateType(after_prefix(argument, encode_utf8("--crate-type="@)))
    } else if argument == encode_utf8("-C"@) {
        match next {
            Some(value) => Meaning::Codegen(value),
            None => Meaning::Other,
        }
    } else if after_prefix(argument, encode_utf8("-C"@)) is Some {
        Meaning::Codegen(after_prefix(argument, encode_utf8("-C"@))->0)
    } else {
        Meaning::Other
    }
}

/// The bounded text of a value, when it is valid UTF-8.
pub open spec fn readable(value: Seq<u8>) -> Option<Seq<char>> {
    if valid_utf8(value) {
        Some(bounded_text(decode_utf8(value), FIELD_LIMIT as nat))
    } else {
        None
    }
}

/// The bounded text of an optional value.
pub open spec fn readable_option(value: Option<Seq<u8>>) -> Option<Seq<char>> {
    match value {
        Some(bytes) => readable(bytes),
        None => None,
    }
}

/// The key of a codegen option.
pub open spec fn codegen_key(option: Seq<u8>) -> Seq<u8> {
    match split_at_first(option, 61) {
        Some((key, _)) => key,
        None => option,
    }
}

/// The value of a codegen option.
pub open spec fn codegen_value(option: Seq<u8>) -> Option<Seq<u8>> {
    match split_at_first(option, 61) {
        Some((_, value)) => Some(value),
        None => None,
    }
}

/// Whether a codegen key is a profiling or coverage control.
pub open spec fn is_conflicting_control(key: Seq<u8>) -> bool {
    ||| key == encode_utf8("profile-generate"@)
    ||| key == encode_utf8("profile-use"@)
    ||| key == encode_utf8("instrument-coverage"@)
}

/// The last readable crate name among the first `count` arguments.
pub open spec fn crate_name_among(arguments: Seq<Seq<u8>>, count: int) -> Option<Seq<char>>
    decreases count,
{
    if count <= 0 {
        None
    } else {
        match meaning(arguments, count - 1) {
            Meaning::CrateName(value) => match readable_option(value) {
                Some(name) => Some(name),
                None => crate_name_among(arguments, count - 1),
            },
            _ => crate_name_among(arguments, count - 1),
        }
    }
}

/// Whether place `index` names a crate without a readable name.
pub open spec fn loses_crate_name(arguments: Seq<Seq<u8>>, index: int) -> bool {
    match meaning(arguments, index) {
        Meaning::CrateName(value) => readable_option(value) is None,
        _ => false,
    }
}

/// The readable crate types among the first `count` arguments, in order.
pub open spec fn crate_types_among(arguments: Seq<Seq<u8>>, count: int) -> Seq<Seq<char>>
    decreases count,
{
    if count <= 0 {
        Seq::empty()
    } else {
        let earlier = crate_types_among(arguments, count - 1);
        match meaning(arguments, count - 1) {
            Meaning::CrateType(value) => match readable_option(value) {
                Some(name) => earlier.push(name),
                None => earlier,
            },
            _ => earlier,
        }
    }
}

/// What the last codegen option with this key says among the first `count` arguments.
pub open spec fn codegen_among(arguments: Seq<Seq<u8>>, key: Seq<u8>, count: int) -> Option<
    Seq<char>,
>
    decreases count,
{
    if count <= 0 {
        None
    } else {
        match meaning(arguments, count - 1) {
            Meaning::Codegen(option) => if codegen_key(option) == key {
                readable_option(codegen_value(option))
            } else {
                codegen_among(arguments, key, count - 1)
            },
            _ => codegen_among(arguments, key, count - 1),
        }
    }
}

/// Whether place `index` carries a profiling or coverage control.
pub open spec fn carries_conflict(arguments: Seq<Seq<u8>>, index: int) -> bool {
    match meaning(arguments, index) {
        Meaning::Codegen(option) => is_conflicting_control(codegen_key(option)),
        _ => false,
    }
}

/// Whether two of the first `count` arguments name different targets.
pub open spec fn names_two_targets(arguments: Seq<Seq<u8>>, count: int) -> bool {
    exists|i: int, j: int|
        0 <= i < count && 0 <= j < count && (#[trigger] meaning(arguments, i)) is Target && (
        #[trigger] meaning(arguments, j)) is Target && meaning(arguments, i) != meaning(
            arguments,
            j,
        )
}

/// Whether one of the first `count` arguments names `target`.
pub open spec fn names_target(arguments: Seq<Seq<u8>>, target: Seq<u8>, count: int) -> bool {
    exists|i: int| 0 <= i < count && #[trigger] meaning(arguments, i) == Meaning::Target(target)
}

/// What the classification of an argument list says.
pub struct ClassificationView {
    pub class: InvocationClass,
    pub exact_target: bool,
    pub emit: bool,
    pub print: bool,
    pub crate_name: Option<Seq<char>>,
    pub crate_types: Seq<Seq<char>>,
    pub metadata: Option<Seq<char>>,
    pub extra_filename: Option<Seq<char>>,
    pub conflict: bool,
    pub ambiguous: bool,
}

/// The first `limit` items of a list.
pub open spec fn at_most<T>(items: Seq<T>, limit: int) -> Seq<T> {
    if items.len() <= limit {
        items
    } else {
        items.take(limit)
    }
}

/// The classification of a resolved argument list for `target`.
///
/// A real target compilation carries the exact supported `--target` and a compilation
/// `--emit`, while a target-info probe may carry the same triple with `--print` and must pass
/// through.
pub open spec fn classified(arguments: Seq<Seq<u8>>, target: Seq<u8>) -> ClassificationView {
    let count = arguments.len() as int;
    let exact_target = names_target(arguments, target, count);
    let emit = exists|i: int| 0 <= i < count && (#[trigger] meaning(arguments, i)) is Emit;
    let print = exists|i: int| 0 <= i < count && (#[trigger] meaning(arguments, i)) is Print;
    let class = if print {
        InvocationClass::Probe
    } else if exact_target && emit {
        InvocationClass::TargetCompile
    } else if emit {
        InvocationClass::HostCompile
    } else {
        InvocationClass::Other
    };
    let crate_name = crate_name_among(arguments, count);
    let lost = exists|i: int| 0 <= i < count && #[trigger] loses_crate_name(arguments, i);
    ClassificationView {
        class,
        exact_target,
        emit,
        print,
        crate_name,
        crate_types: at_most(crate_types_among(arguments, count), CRATE_TYPE_LIMIT as int),
        metadata: codegen_among(arguments, encode_utf8("metadata"@), count),
        extra_filename: codegen_among(arguments, encode_utf8("extra-filename"@), count),
        conflict: exists|i: int| 0 <= i < count && #[trigger] carries_conflict(arguments, i),
        ambiguous: names_two_targets(arguments, count) || (class == InvocationClass::TargetCompile
            && (crate_name is None || lost || count > ARGUMENT_LIMIT)),
    }
}

/// Why PGO refuses a classified invocation. Only a target compilation is ever refused.
pub open spec fn rejection_of(classification: ClassificationView) -> Option<Seq<char>> {
    if classification.class != InvocationClass::TargetCompile {
        None
    } else if classification.conflict {
        Some(INPUT_CONFLICT_REASON@)
    } else if classification.ambiguous {
        Some(INPUT_AMBIGUITY_REASON@)
    } else {
        None
    }
}

#[derive(Debug)]
pub struct Classification {
    pub class: InvocationClass,
    pub exact_target: bool,
    pub emit: bool,
    pub print: bool,
    pub crate_name: Option<String>,
    pub crate_types: Vec<String>,
    pub metadata: Option<String>,
    pub extra_filename: Option<String>,
    pub conflict: bool,
    pub ambiguous: bool,
}

impl View for Classification {
    type V = ClassificationView;

    open spec fn view(&self) -> ClassificationView {
        ClassificationView {
            class: self.class,
            exact_target: self.exact_target,
            emit: self.emit,
            print: self.print,
            crate_name: optional_text(self.crate_name),
            crate_types: texts(self.crate_types@),
            metadata: optional_text(self.metadata),
            extra_filename: optional_text(self.extra_filename),
            conflict: self.conflict,
            ambiguous: self.ambiguous,
        }
    }
}

/// The view of an optional static text.
pub open spec fn optional_label(value: Option<&'static str>) -> Option<Seq<char>> {
    match value {
        Some(text) => Some(text@),
        None => None,
    }
}

impl Classification {
    pub fn rejection(&self) -> (reason: Option<&'static str>)
        ensures
            optional_label(reason) == rejection_of(self@),
    {
        if self.class != InvocationClass::TargetCompile {
            None
        } else if self.conflict {
            Some(INPUT_CONFLICT_REASON)
        } else if self.ambiguous {
            Some(INPUT_AMBIGUITY_REASON)
        } else {
            None
        }
    }
}

/// What one argument says, borrowed from the argument list.
enum Reading<'a> {
    Target(&'a [u8]),
    Emit,
    Print,
    CrateName(Option<&'a [u8]>),
    CrateType(Option<&'a [u8]>),
    Codegen(&'a [u8]),
    Other,
}

spec fn borrowed(value: Option<&[u8]>) -> Option<Seq<u8>> {
    match value {
        Some(bytes) => Some(bytes@),
        None => None,
    }
}

spec fn reading_meaning(reading: Reading) -> Meaning {
    match reading {
        Reading::Target(value) => Meaning::Target(value@),
        Reading::Emit => Meaning::Emit,
        Reading::Print => Meaning::Print,
        Reading::CrateName(value) => Meaning::CrateName(borrowed(value)),
        Reading::CrateType(value) => Meaning::CrateType(borrowed(value)),
        Reading::Codegen(value) => Meaning::Codegen(value@),
        Reading::Other => Meaning::Other,
    }
}

fn read_argument<'a>(arguments: &'a Vec<Vec<u8>>, index: usize) -> (reading: Reading<'a>)
    requires
        index < arguments@.len(),
    ensures
        reading_meaning(reading) == meaning(byte_strings(arguments@), index as int),
{
    let argument = arguments[index].as_slice();
    let ghost views = byte_strings(arguments@);
    assert(views[index as int] == argument@);
    let next: Option<&'a [u8]> = if index < arguments.len() - 1 {
        assert(views[index + 1] == arguments@[index + 1]@);
        Some(arguments[index + 1].as_slice())
    } else {
        None
    };
    assert(borrowed(next) == next_argument(views, index as int));
    if same_bytes(argument, "--target".as_bytes()) {
        return match next {
            Some(value) => Reading::Target(value),
            None => Reading::Other,
        };
    }
    if let Some(value) = suffix(argument, "--target=") {
        return Reading::Target(value);
    }
    if same_bytes(argument, "--emit".as_bytes()) || has_prefix(argument, "--emit=".as_bytes()) {
        return Reading::Emit;
    }
    if same_bytes(argument, "--print".as_bytes()) || has_prefix(argument, "--print=".as_bytes()) {
        return Reading::Print;
    }
    if same_bytes(argument, "--crate-name".as_bytes()) {
        return Reading::CrateName(next);
    }
    if let Some(value) = suffix(argument, "--crate-name=") {
        return Reading::CrateName(Some(value));
    }
    if same_bytes(argument, "--crate-type".as_bytes()) {
        return Reading::CrateType(next);
    }
    if let Some(value) = suffix(argument, "--crate-type=") {
        return Reading::CrateType(Some(value));
    }
    if same_bytes(argument, "-C".as_bytes()) {
        return match next {
            Some(value) => Reading::Codegen(value),
            None => Reading::Other,
        };
    }
    match suffix(argument, "-C") {
        Some(value) => Reading::Codegen(value),
        None => Reading::Other,
    }
}

/// The bounded text of a value, when it is valid UTF-8.
pub fn lossless(value: &[u8]) -> (text: Option<String>)
    ensures
        optional_text(text) == readable(value@),
{
    match utf8_text(value) {
        Some(text) => Some(bounded_prefix(text, FIELD_LIMIT)),
        None => None,
    }
}

fn lossless_option(value: Option<&[u8]>) -> (text: Option<String>)
    ensures
        optional_text(text) == readable_option(borrowed(value)),
{
    match value {
        Some(bytes) => lossless(bytes),
        None => None,
    }
}

/// Whether the arguments name `target`, and whether they name two different targets.
fn read_targets(arguments: &Vec<Vec<u8>>, target: &str) -> (found: (bool, bool))
    ensures
        found.0 == names_target(
            byte_strings(arguments@),
            encode_utf8(target@),
            arguments@.len() as int,
        ),
        found.1 == names_two_targets(byte_strings(arguments@), arguments@.len() as int),
{
    let ghost views = byte_strings(arguments@);
    let ghost wanted = encode_utf8(target@);
    let mut first_target: Option<&[u8]> = None;
    let mut many_targets: bool = false;
    let mut exact_target: bool = false;
    let mut index: usize = 0;
    while index < arguments.len()
        invariant
            index <= arguments@.len(),
            views == byte_strings(arguments@),
            wanted == encode_utf8(target@),
            match first_target {
                Some(first) => {
                    &&& exists|i: int|
                        0 <= i < index && #[trigger] meaning(views, i) == Meaning::Target(first@)
                    &&& many_targets == exists|i: int|
                        0 <= i < index && (#[trigger] meaning(views, i)) is Target && meaning(
                            views,
                            i,
                        ) != Meaning::Target(first@)
                },
                None => !many_targets && forall|i: int|
                    0 <= i < index ==> !((#[trigger] meaning(views, i)) is Target),
            },
            exact_target == names_target(views, wanted, index as int),
        decreases arguments@.len() - index,
    {
        let reading = read_argument(arguments, index);
        let ghost said = meaning(views, index as int);
        assert(reading_meaning(reading) == said);
        if let Reading::Target(value) = reading {
            if same_bytes(value, target.as_bytes()) {
                exact_target = true;
            }
            match first_target {
                Some(first) => {
                    if !same_bytes(first, value) {
                        many_targets = true;
                    }
                },
                None => {
                    first_target = Some(value);
                },
            }
        }
        index = index + 1;
    }
    (exact_target, many_targets)
}

/// Whether the arguments ask for output, ask for a report, or carry a profiling or coverage
/// control.
fn read_flags(arguments: &Vec<Vec<u8>>) -> (found: (bool, bool, bool))
    ensures
        found.0 == exists|i: int|
            0 <= i < arguments@.len() && (#[trigger] meaning(byte_strings(arguments@), i)) is Emit,
        found.1 == exists|i: int|
            0 <= i < arguments@.len() && (#[trigger] meaning(byte_strings(arguments@), i)) is Print,
        found.2 == exists|i: int|
            0 <= i < arguments@.len() && #[trigger] carries_conflict(byte_strings(arguments@), i),
{
    let ghost views = byte_strings(arguments@);
    let mut emit: bool = false;
    let mut print: bool = false;
    let mut conflict: bool = false;
    let mut index: usize = 0;
    while index < arguments.len()
        invariant
            index <= arguments@.len(),
            views == byte_strings(arguments@),
            emit == exists|i: int| 0 <= i < index && (#[trigger] meaning(views, i)) is Emit,
            print == exists|i: int| 0 <= i < index && (#[trigger] meaning(views, i)) is Print,
            conflict == exists|i: int| 0 <= i < index && #[trigger] carries_conflict(views, i),
        decreases arguments@.len() - index,
    {
        let reading = read_argument(arguments, index);
        let ghost said = meaning(views, index as int);
        assert(reading_meaning(reading) == said);
        assert(carries_conflict(views, index as int) == match said {
            Meaning::Codegen(option) => is_conflicting_control(codegen_key(option)),
            _ => false,
        });
        match reading {
            Reading::Emit => {
                emit = true;
            },
            Reading::Print => {
                print = true;
            },
            Reading::Codegen(option) => {
                let key = option_key(option);
                if same_bytes(key, "profile-generate".as_bytes()) || same_bytes(
                    key,
                    "profile-use".as_bytes(),
                ) || same_bytes(key, "instrument-coverage".as_bytes()) {
                    conflict = true;
                }
            },
            _ => {},
        }
        index = index + 1;
    }
    (emit, print, conflict)
}

fn option_key(option: &[u8]) -> (key: &[u8])
    ensures
        key@ == codegen_key(option@),
{
    match split_once(option, 61) {
        Some((key, _)) => key,
        None => option,
    }
}

fn option_value(option: &[u8]) -> (value: Option<&[u8]>)
    ensures
        borrowed(value) == codegen_value(option@),
{
    match split_once(option, 61) {
        Some((_, value)) => Some(value),
        None => None,
    }
}

/// The crate name that the arguments give, and whether one of them is not readable.
fn read_crate_name(arguments: &Vec<Vec<u8>>) -> (found: (Option<String>, bool))
    ensures
        optional_text(found.0) == crate_name_among(
            byte_strings(arguments@),
            arguments@.len() as int,
        ),
        found.1 == exists|i: int|
            0 <= i < arguments@.len() && #[trigger] loses_crate_name(byte_strings(arguments@), i),
{
    let ghost views = byte_strings(arguments@);
    let mut crate_name: Option<String> = None;
    let mut lost: bool = false;
    let mut index: usize = 0;
    while index < arguments.len()
        invariant
            index <= arguments@.len(),
            views == byte_strings(arguments@),
            optional_text(crate_name) == crate_name_among(views, index as int),
            lost == exists|i: int| 0 <= i < index && #[trigger] loses_crate_name(views, i),
        decreases arguments@.len() - index,
    {
        let reading = read_argument(arguments, index);
        let ghost said = meaning(views, index as int);
        assert(reading_meaning(reading) == said);
        assert(loses_crate_name(views, index as int) == match said {
            Meaning::CrateName(value) => readable_option(value) is None,
            _ => false,
        });
        if let Reading::CrateName(value) = reading {
            match lossless_option(value) {
                Some(name) => {
                    crate_name = Some(name);
                },
                None => {
                    lost = true;
                },
            }
        }
        index = index + 1;
    }
    (crate_name, lost)
}

/// The crate types that the arguments give, as far as they are recorded.
fn read_crate_types(arguments: &Vec<Vec<u8>>) -> (crate_types: Vec<String>)
    ensures
        texts(crate_types@) == at_most(
            crate_types_among(byte_strings(arguments@), arguments@.len() as int),
            CRATE_TYPE_LIMIT as int,
        ),
{
    let ghost views = byte_strings(arguments@);
    let mut crate_types: Vec<String> = Vec::new();
    let mut index: usize = 0;
    assert(texts(crate_types@) =~= crate_types_among(views, 0));
    while index < arguments.len()
        invariant
            index <= arguments@.len(),
            views == byte_strings(arguments@),
            texts(crate_types@) == crate_types_among(views, index as int),
        decreases arguments@.len() - index,
    {
        let reading = read_argument(arguments, index);
        let ghost before = crate_types@;
        assert(reading_meaning(reading) == meaning(views, index as int));
        if let Reading::CrateType(value) = reading {
            if let Some(name) = lossless_option(value) {
                crate_types.push(name);
                assert(texts(crate_types@) =~= texts(before).push(name@));
            }
        }
        index = index + 1;
    }
    let ghost all_types = crate_types@;
    if crate_types.len() > CRATE_TYPE_LIMIT {
        crate_types.truncate(CRATE_TYPE_LIMIT);
    }
    assert(texts(crate_types@) =~= at_most(texts(all_types), CRATE_TYPE_LIMIT as int));
    crate_types
}

/// What the last codegen option with a key says.
fn read_codegen(arguments: &Vec<Vec<u8>>, wanted: &str) -> (value: Option<String>)
    ensures
        optional_text(value) == codegen_among(
            byte_strings(arguments@),
            encode_utf8(wanted@),
            arguments@.len() as int,
        ),
{
    let ghost views = byte_strings(arguments@);
    let mut value: Option<String> = None;
    let mut index: usize = 0;
    while index < arguments.len()
        invariant
            index <= arguments@.len(),
            views == byte_strings(arguments@),
            optional_text(value) == codegen_among(views, encode_utf8(wanted@), index as int),
        decreases arguments@.len() - index,
    {
        let reading = read_argument(arguments, index);
        assert(reading_meaning(reading) == meaning(views, index as int));
        if let Reading::Codegen(option) = reading {
            if same_bytes(option_key(option), wanted.as_bytes()) {
                value = lossless_option(option_value(option));
            }
        }
        index = index + 1;
    }
    value
}

/// Classifies one resolved rustc argv.
pub fn classify(arguments: &Vec<Vec<u8>>, target: &str) -> (classification: Classification)
    ensures
        classification@ == classified(byte_strings(arguments@), encode_utf8(target@)),
{
    let (exact_target, many_targets) = read_targets(arguments, target);
    let (emit, print, conflict) = read_flags(arguments);
    let (crate_name, crate_name_lost) = read_crate_name(arguments);
    let crate_types = read_crate_types(arguments);
    let metadata = read_codegen(arguments, "metadata");
    let extra_filename = read_codegen(arguments, "extra-filename");
    let class: InvocationClass = if print {
        InvocationClass::Probe
    } else if exact_target && emit {
        InvocationClass::TargetCompile
    } else if emit {
        InvocationClass::HostCompile
    } else {
        InvocationClass::Other
    };
    let ambiguous: bool = many_targets || (class == InvocationClass::TargetCompile && (
    crate_name.is_none() || crate_name_lost || arguments.len() > ARGUMENT_LIMIT));
    assert(byte_strings(arguments@).len() == arguments@.len());
    Classification {
        class,
        exact_target,
        emit,
        print,
        crate_name,
        crate_types,
        metadata,
        extra_filename,
        conflict,
        ambiguous,
    }
}

/// PGO refuses only target compilations: probes, host compilations and everything else pass.
pub proof fn law_only_target_compilations_are_rejected(arguments: Seq<Seq<u8>>, target: Seq<u8>)
    ensures
        rejection_of(classified(arguments, target)) is Some ==> classified(arguments, target).class
            == InvocationClass::TargetCompile,
        classified(arguments, target).print ==> classified(arguments, target).class
            == InvocationClass::Probe,
        classified(arguments, target).class == InvocationClass::TargetCompile ==> names_target(
            arguments,
            target,
            arguments.len() as int,
        ),
{
}

/// `argument` from `from` on, with every occurrence of `root` replaced by `mark`.
pub open spec fn replaced_from(
    argument: Seq<u8>,
    root: Seq<u8>,
    mark: Seq<u8>,
    from: int,
) -> Seq<u8>
    decreases argument.len() - from,
{
    if from < 0 || from >= argument.len() || root.len() == 0 {
        Seq::empty()
    } else if root.is_prefix_of(argument.skip(from)) {
        mark + replaced_from(argument, root, mark, from + root.len())
    } else {
        seq![argument[from]] + replaced_from(argument, root, mark, from + 1)
    }
}

/// `argument` with every occurrence of `root` replaced by `mark`. An empty root stands nowhere.
pub open spec fn replaced(argument: Seq<u8>, root: Seq<u8>, mark: Seq<u8>) -> Seq<u8> {
    if root.len() == 0 {
        argument
    } else {
        replaced_from(argument, root, mark, 0)
    }
}

/// `argument` with every occurrence of the stage root replaced by the placeholder.
pub open spec fn normalized(argument: Seq<u8>, stage_root: Seq<u8>) -> Seq<u8> {
    replaced(argument, stage_root, encode_utf8(STAGE_ROOT_PLACEHOLDER@))
}

/// Whether `root` stands in `argument` at place `index`.
pub open spec fn root_stands_at(argument: Seq<u8>, root: Seq<u8>, index: int) -> bool {
    0 <= index <= argument.len() && root.is_prefix_of(argument.skip(index))
}

/// Whether `root` stands in `head + root + tail` between `head` and `tail` alone.
pub open spec fn stands_once(head: Seq<u8>, root: Seq<u8>, tail: Seq<u8>) -> bool {
    forall|i: int|
        0 <= i < (head + root + tail).len() && #[trigger] root_stands_at(
            head + root + tail,
            root,
            i,
        ) ==> head.len() <= i < head.len() + root.len()
}

proof fn lemma_replaced_plain(argument: Seq<u8>, root: Seq<u8>, mark: Seq<u8>, from: int)
    requires
        0 <= from <= argument.len(),
        root.len() > 0,
        forall|i: int| from <= i < argument.len() ==> !#[trigger] root_stands_at(argument, root, i),
    ensures
        replaced_from(argument, root, mark, from) == argument.skip(from),
    decreases argument.len() - from,
{
    if from < argument.len() {
        assert(!root_stands_at(argument, root, from));
        lemma_replaced_plain(argument, root, mark, from + 1);
        assert(argument.skip(from) =~= seq![argument[from]] + argument.skip(from + 1));
    } else {
        assert(argument.skip(from) =~= Seq::empty());
    }
}

proof fn lemma_replaced_one(
    argument: Seq<u8>,
    root: Seq<u8>,
    mark: Seq<u8>,
    from: int,
    place: int,
)
    requires
        0 <= from <= place,
        place + root.len() <= argument.len(),
        root.len() > 0,
        root_stands_at(argument, root, place),
        forall|i: int| from <= i < place ==> !#[trigger] root_stands_at(argument, root, i),
        forall|i: int|
            place + root.len() <= i < argument.len() ==> !#[trigger] root_stands_at(
                argument,
                root,
                i,
            ),
    ensures
        replaced_from(argument, root, mark, from) == argument.subrange(from, place) + mark
            + argument.skip(place + root.len()),
    decreases place - from,
{
    if from < place {
        assert(!root_stands_at(argument, root, from));
        lemma_replaced_one(argument, root, mark, from + 1, place);
        assert(argument.subrange(from, place) =~= seq![argument[from]] + argument.subrange(
            from + 1,
            place,
        ));
    } else {
        lemma_replaced_plain(argument, root, mark, place + root.len());
        assert(argument.subrange(from, place) =~= Seq::empty());
    }
    assert(replaced_from(argument, root, mark, from) =~= argument.subrange(from, place) + mark
        + argument.skip(place + root.len()));
}

/// An argument that does not hold the stage root keeps its exact bytes.
pub proof fn law_stage_free_arguments_are_kept(argument: Seq<u8>, stage_root: Seq<u8>)
    requires
        forall|i: int| 0 <= i < argument.len() ==> !#[trigger] root_stands_at(argument, stage_root, i),
    ensures
        normalized(argument, stage_root) == argument,
{
    if stage_root.len() > 0 {
        lemma_replaced_plain(argument, stage_root, encode_utf8(STAGE_ROOT_PLACEHOLDER@), 0);
        assert(argument.skip(0) =~= argument);
    }
}

/// Arguments that differ only in the stage root that they name normalize to the same bytes.
pub proof fn law_normalization_forgets_the_stage(
    head: Seq<u8>,
    first_root: Seq<u8>,
    second_root: Seq<u8>,
    tail: Seq<u8>,
)
    requires
        first_root.len() > 0,
        second_root.len() > 0,
        stands_once(head, first_root, tail),
        stands_once(head, second_root, tail),
    ensures
        normalized(head + first_root + tail, first_root) == normalized(
            head + second_root + tail,
            second_root,
        ),
        normalized(head + first_root + tail, first_root) == head + encode_utf8(
            STAGE_ROOT_PLACEHOLDER@,
        ) + tail,
{
    lemma_replaced_between(head, first_root, tail, encode_utf8(STAGE_ROOT_PLACEHOLDER@));
    lemma_replaced_between(head, second_root, tail, encode_utf8(STAGE_ROOT_PLACEHOLDER@));
}

/// A root that stands once is replaced there, and nothing else is.
pub proof fn lemma_replaced_between(head: Seq<u8>, root: Seq<u8>, tail: Seq<u8>, mark: Seq<u8>)
    requires
        root.len() > 0,
        stands_once(head, root, tail),
    ensures
        replaced(head + root + tail, root, mark) == head + mark + tail,
{
    let whole = head + root + tail;
    let place = head.len() as int;
    assert(root.is_prefix_of(whole.skip(place))) by {
        assert(whole.skip(place).take(root.len() as int) =~= root);
    }
    assert(root_stands_at(whole, root, place));
    lemma_replaced_one(whole, root, mark, 0, place);
    assert(whole.subrange(0, place) =~= head);
    assert(whole.skip(place + root.len()) =~= tail);
}

/// Replaces every occurrence of `root` by `mark`, from the front.
pub fn replace_root(argument: &[u8], root: &[u8], mark: &[u8]) -> (bytes: Vec<u8>)
    ensures
        bytes@ == replaced(argument@, root@, mark@),
{
    if root.len() == 0 {
        return slice_to_vec(argument);
    }
    let total: usize = argument.len();
    let mut bytes: Vec<u8> = Vec::new();
    let mut index: usize = 0;
    while index < total
        invariant
            index <= total == argument@.len(),
            root@.len() > 0,
            replaced_from(argument@, root@, mark@, 0) == bytes@ + replaced_from(
                argument@,
                root@,
                mark@,
                index as int,
            ),
        decreases total - index,
    {
        let rest = &argument[index..total];
        assert(rest@ =~= argument@.skip(index as int));
        let ghost before = bytes@;
        if has_prefix(rest, root) {
            bytes.extend_from_slice(mark);
            proof {
                assert(before + replaced_from(argument@, root@, mark@, index as int) =~= bytes@
                    + replaced_from(argument@, root@, mark@, index + root@.len()));
            }
            index = index + root.len();
        } else {
            bytes.push(argument[index]);
            proof {
                assert(before + replaced_from(argument@, root@, mark@, index as int) =~= bytes@
                    + replaced_from(argument@, root@, mark@, index + 1));
            }
            index = index + 1;
        }
    }
    assert(bytes@ + replaced_from(argument@, root@, mark@, index as int) =~= bytes@);
    bytes
}

/// Replaces every stage-target-root substring with the placeholder.
///
/// Three argv positions depend on the stage root: `--out-dir`, `-L dependency=` and the
/// dependency path of a linked crate. Normalizing the root itself covers all three without
/// interpreting Cargo's argument grammar.
pub fn normalize_argument(argument: &[u8], stage_root: &[u8]) -> (bytes: Vec<u8>)
    ensures
        bytes@ == normalized(argument@, stage_root@),
{
    replace_root(argument, stage_root, STAGE_ROOT_PLACEHOLDER.as_bytes())
}

/// The normalized arguments of one stage.
pub open spec fn all_normalized(arguments: Seq<Seq<u8>>, stage_root: Seq<u8>) -> Seq<Seq<u8>> {
    arguments.map_values(|argument: Seq<u8>| normalized(argument, stage_root))
}

/// Normalizes every argument.
pub fn normalize_arguments(arguments: &Vec<Vec<u8>>, stage_root: &[u8]) -> (bytes: Vec<Vec<u8>>)
    ensures
        byte_strings(bytes@) == all_normalized(byte_strings(arguments@), stage_root@),
{
    let mut bytes: Vec<Vec<u8>> = Vec::new();
    let mut index: usize = 0;
    while index < arguments.len()
        invariant
            index <= arguments@.len(),
            bytes@.len() == index,
            forall|i: int|
                0 <= i < index ==> (#[trigger] bytes@[i])@ == normalized(
                    arguments@[i]@,
                    stage_root@,
                ),
        decreases arguments@.len() - index,
    {
        bytes.push(normalize_argument(arguments[index].as_slice(), stage_root));
        index = index + 1;
    }
    assert(byte_strings(bytes@) =~= all_normalized(byte_strings(arguments@), stage_root@));
    bytes
}

/// The short digest of one argument.
pub open spec fn short_digest_of(value: Seq<u8>) -> Seq<char> {
    sha256_text(frame(seq![value])).take(ARGUMENT_DIGEST_LENGTH as int)
}

/// The first digits of the framed digest of one value.
pub fn short_digest(value: &[u8]) -> (digest: String)
    ensures
        digest@ == short_digest_of(value@),
        digest@.len() == ARGUMENT_DIGEST_LENGTH,
        forall|i: int| 0 <= i < digest@.len() ==> is_hex_digit(#[trigger] digest@[i]),
{
    let mut values: Vec<Vec<u8>> = Vec::new();
    values.push(slice_to_vec(value));
    assert(byte_strings(values@) =~= seq![value@]);
    let digest = framed_digest(&values);
    proof {
        assert(is_ascii_chars(digest@)) by {
            assert forall|i: int| 0 <= i < digest@.len() implies 0 <= #[trigger] digest@[i] as int
                <= 127 by {
                assert(is_hex_digit(digest@[i]));
            }
        }
        lemma_bounded_ascii(digest@, ARGUMENT_DIGEST_LENGTH as nat);
    }
    bounded_prefix(digest.as_str(), ARGUMENT_DIGEST_LENGTH)
}

/// The ordered digest of an argument list.
pub fn argument_digest(arguments: &Vec<Vec<u8>>) -> (digest: String)
    ensures
        digest@ == sha256_text(frame(byte_strings(arguments@))),
        digest@.len() == 64,
        forall|i: int| 0 <= i < digest@.len() ==> is_hex_digit(#[trigger] digest@[i]),
{
    framed_digest(arguments)
}

/// Whether the argument at `index` gives `value` to a flag: in the next argument, or behind `=`.
pub open spec fn gives_value(
    arguments: Seq<Seq<u8>>,
    index: int,
    flag: Seq<char>,
    value: Seq<u8>,
) -> bool {
    &&& 0 <= index < arguments.len()
    &&& {
        ||| arguments[index] == encode_utf8(flag) && index + 1 < arguments.len() && value
            == arguments[index + 1]
        ||| arguments[index] == encode_utf8(flag + "="@) + value
    }
}

/// Whether the argument at `index` is a flag, alone or with a value behind `=`.
pub open spec fn raises_flag(arguments: Seq<Seq<u8>>, index: int, flag: Seq<char>) -> bool {
    &&& 0 <= index < arguments.len()
    &&& arguments[index] == encode_utf8(flag) || encode_utf8(flag + "="@).is_prefix_of(
        arguments[index],
    )
}

/// Whether the argument at `index` gives the codegen option `option`: in the argument behind
/// `-C`, or in the same argument.
pub open spec fn gives_option(arguments: Seq<Seq<u8>>, index: int, option: Seq<u8>) -> bool {
    &&& 0 <= index < arguments.len()
    &&& {
        ||| arguments[index] == encode_utf8("-C"@) && index + 1 < arguments.len() && option
            == arguments[index + 1]
        ||| option.len() > 0 && arguments[index] == encode_utf8("-C"@) + option
    }
}

/// Whether a codegen option has a key: it is the key, or the key and a value behind `=`.
pub open spec fn option_has_key(option: Seq<u8>, key: Seq<char>) -> bool {
    option == encode_utf8(key) || encode_utf8(key + "="@).is_prefix_of(option)
}

/// Whether an argument list carries one of the three profiling and coverage controls.
pub open spec fn carries_control(arguments: Seq<Seq<u8>>) -> bool {
    exists|index: int, option: Seq<u8>| #[trigger]
        gives_option(arguments, index, option) && (option_has_key(option, "profile-generate"@)
            || option_has_key(option, "profile-use"@) || option_has_key(
            option,
            "instrument-coverage"@,
        ))
}

proof fn lemma_flag(flag: Seq<char>)
    requires
        is_ascii_chars(flag),
    ensures
        encode_utf8(flag).len() == flag.len(),
        forall|i: int| 0 <= i < flag.len() ==> #[trigger] encode_utf8(flag)[i] == flag[i] as u8,
        encode_utf8(flag + "="@) == encode_utf8(flag).push(61),
{
    reveal_strlit("=");
    lemma_ascii_bytes(flag);
    lemma_ascii_bytes(flag + "="@);
    assert(encode_utf8(flag + "="@) =~= encode_utf8(flag).push(61));
}

proof fn lemma_flags()
    ensures
        encode_utf8("--target="@) == encode_utf8("--target"@ + "="@),
        encode_utf8("--emit="@) == encode_utf8("--emit"@ + "="@),
        encode_utf8("--print="@) == encode_utf8("--print"@ + "="@),
        encode_utf8("--crate-name="@) == encode_utf8("--crate-name"@ + "="@),
        encode_utf8("--crate-type="@) == encode_utf8("--crate-type"@ + "="@),
        ({
            let flag = encode_utf8("--target"@);
            &&& flag.len() == 8 && flag[1] == 45 && flag[2] == 116
            &&& encode_utf8("--target"@ + "="@) == flag.push(61)
        }),
        ({
            let flag = encode_utf8("--emit"@);
            &&& flag.len() == 6 && flag[1] == 45 && flag[2] == 101
            &&& encode_utf8("--emit"@ + "="@) == flag.push(61)
        }),
        ({
            let flag = encode_utf8("--print"@);
            &&& flag.len() == 7 && flag[1] == 45 && flag[2] == 112
            &&& encode_utf8("--print"@ + "="@) == flag.push(61)
        }),
        ({
            let flag = encode_utf8("--crate-name"@);
            &&& flag.len() == 12 && flag[1] == 45 && flag[2] == 99 && flag[8] == 110
            &&& encode_utf8("--crate-name"@ + "="@) == flag.push(61)
        }),
        ({
            let flag = encode_utf8("--crate-type"@);
            &&& flag.len() == 12 && flag[1] == 45 && flag[2] == 99 && flag[8] == 116
            &&& encode_utf8("--crate-type"@ + "="@) == flag.push(61)
        }),
        ({
            let flag = encode_utf8("-C"@);
            &&& flag.len() == 2 && flag[1] == 67
        }),
{
    reveal_strlit("=");
    reveal_strlit("--target");
    reveal_strlit("--target=");
    reveal_strlit("--emit");
    reveal_strlit("--emit=");
    reveal_strlit("--print");
    reveal_strlit("--print=");
    reveal_strlit("--crate-name");
    reveal_strlit("--crate-name=");
    reveal_strlit("--crate-type");
    reveal_strlit("--crate-type=");
    reveal_strlit("-C");
    assert("--target="@ =~= "--target"@ + "="@);
    assert("--emit="@ =~= "--emit"@ + "="@);
    assert("--print="@ =~= "--print"@ + "="@);
    assert("--crate-name="@ =~= "--crate-name"@ + "="@);
    assert("--crate-type="@ =~= "--crate-type"@ + "="@);
    lemma_flag("--target"@);
    lemma_flag("--emit"@);
    lemma_flag("--print"@);
    lemma_flag("--crate-name"@);
    lemma_flag("--crate-type"@);
    lemma_flag("-C"@);
    assert("--crate-name"@.len() == 12);
    assert("--crate-type"@.len() == 12);
}

proof fn lemma_after_prefix(value: Seq<u8>, prefix: Seq<u8>, rest: Seq<u8>)
    ensures
        after_prefix(value, prefix) == Some(rest) <==> value == prefix + rest,
{
    if prefix.is_prefix_of(value) {
        assert(value =~= prefix + value.skip(prefix.len() as int));
        if value == prefix + rest {
            assert(value.skip(prefix.len() as int) =~= rest);
        }
    } else if value == prefix + rest {
        assert(value.take(prefix.len() as int) =~= prefix);
        assert(prefix.is_prefix_of(value));
    }
}

/// The places of an argument at which flags are told apart.
proof fn lemma_prefix_letters(argument: Seq<u8>, flag: Seq<u8>)
    requires
        argument == flag || flag.push(61).is_prefix_of(argument),
    ensures
        argument.len() >= flag.len(),
        forall|i: int| 0 <= i < flag.len() ==> #[trigger] argument[i] == flag[i],
        argument.len() == flag.len() ==> argument == flag,
{
    if flag.push(61).is_prefix_of(argument) {
        assert forall|i: int| 0 <= i < flag.len() implies #[trigger] argument[i] == flag[i] by {
            assert(flag.push(61)[i] == argument[i]);
        }
    }
}

proof fn lemma_target_read(arguments: Seq<Seq<u8>>, index: int, value: Seq<u8>)
    requires
        0 <= index < arguments.len(),
    ensures
        meaning(arguments, index) == Meaning::Target(value) <==> gives_value(
            arguments,
            index,
            "--target"@,
            value,
        ),
{
    lemma_flags();
    let argument = arguments[index];
    let flag = encode_utf8("--target"@);
    lemma_after_prefix(argument, flag.push(61), value);
    if argument == flag.push(61) + value {
        assert(argument.len() > flag.len());
    }
}

proof fn lemma_emit_read(arguments: Seq<Seq<u8>>, index: int)
    requires
        0 <= index < arguments.len(),
    ensures
        meaning(arguments, index) is Emit <==> raises_flag(arguments, index, "--emit"@),
        meaning(arguments, index) is Print <==> raises_flag(arguments, index, "--print"@),
{
    lemma_flags();
    let argument = arguments[index];
    let target = encode_utf8("--target"@);
    let emit = encode_utf8("--emit"@);
    let print = encode_utf8("--print"@);
    if argument == target || target.push(61).is_prefix_of(argument) {
        lemma_prefix_letters(argument, target);
        assert(argument[2] == 116);
    }
    if raises_flag(arguments, index, "--emit"@) {
        lemma_prefix_letters(argument, emit);
        assert(argument[2] == 101);
    }
    if raises_flag(arguments, index, "--print"@) {
        lemma_prefix_letters(argument, print);
        assert(argument[2] == 112);
    }
}

proof fn lemma_crate_read(arguments: Seq<Seq<u8>>, index: int, value: Seq<u8>)
    requires
        0 <= index < arguments.len(),
    ensures
        meaning(arguments, index) == Meaning::CrateName(Some(value)) <==> gives_value(
            arguments,
            index,
            "--crate-name"@,
            value,
        ),
        meaning(arguments, index) == Meaning::CrateName(None) <==> arguments[index]
            == encode_utf8("--crate-name"@) && index + 1 == arguments.len(),
        meaning(arguments, index) == Meaning::CrateType(Some(value)) <==> gives_value(
            arguments,
            index,
            "--crate-type"@,
            value,
        ),
{
    lemma_flags();
    let argument = arguments[index];
    let target = encode_utf8("--target"@);
    let emit = encode_utf8("--emit"@);
    let print = encode_utf8("--print"@);
    let name = encode_utf8("--crate-name"@);
    let kind = encode_utf8("--crate-type"@);
    lemma_after_prefix(argument, name.push(61), value);
    lemma_after_prefix(argument, kind.push(61), value);
    if argument == target || target.push(61).is_prefix_of(argument) {
        lemma_prefix_letters(argument, target);
        assert(argument[2] == 116);
    }
    if argument == emit || emit.push(61).is_prefix_of(argument) {
        lemma_prefix_letters(argument, emit);
        assert(argument[2] == 101);
    }
    if argument == print || print.push(61).is_prefix_of(argument) {
        lemma_prefix_letters(argument, print);
        assert(argument[2] == 112);
    }
    if argument == name || name.push(61).is_prefix_of(argument) {
        lemma_prefix_letters(argument, name);
        assert(argument[2] == 99 && argument[8] == 110);
    }
    if argument == kind || kind.push(61).is_prefix_of(argument) {
        lemma_prefix_letters(argument, kind);
        assert(argument[2] == 99 && argument[8] == 116);
    }
    if argument == name.push(61) + value {
        assert(name.push(61).is_prefix_of(argument));
        assert(argument.len() > name.len());
    }
    if argument == kind.push(61) + value {
        assert(kind.push(61).is_prefix_of(argument));
        assert(argument.len() > kind.len());
    }
}

proof fn lemma_option_read(arguments: Seq<Seq<u8>>, index: int, option: Seq<u8>)
    requires
        0 <= index < arguments.len(),
    ensures
        meaning(arguments, index) == Meaning::Codegen(option) <==> gives_option(
            arguments,
            index,
            option,
        ),
{
    lemma_flags();
    let argument = arguments[index];
    let target = encode_utf8("--target"@);
    let emit = encode_utf8("--emit"@);
    let print = encode_utf8("--print"@);
    let name = encode_utf8("--crate-name"@);
    let kind = encode_utf8("--crate-type"@);
    let codegen = encode_utf8("-C"@);
    lemma_after_prefix(argument, codegen, option);
    if argument == target || target.push(61).is_prefix_of(argument) {
        lemma_prefix_letters(argument, target);
        assert(argument[1] == 45);
    }
    if argument == emit || emit.push(61).is_prefix_of(argument) {
        lemma_prefix_letters(argument, emit);
        assert(argument[1] == 45);
    }
    if argument == print || print.push(61).is_prefix_of(argument) {
        lemma_prefix_letters(argument, print);
        assert(argument[1] == 45);
    }
    if argument == name || name.push(61).is_prefix_of(argument) {
        lemma_prefix_letters(argument, name);
        assert(argument[1] == 45);
    }
    if argument == kind || kind.push(61).is_prefix_of(argument) {
        lemma_prefix_letters(argument, kind);
        assert(argument[1] == 45);
    }
    if codegen.is_prefix_of(argument) {
        assert(argument[1] == codegen[1]);
    }
    if argument == codegen + option {
        assert(argument[1] == 67);
        if option.len() == 0 {
            assert(argument =~= codegen);
        }
    }
}

proof fn lemma_option_key(option: Seq<u8>, key: Seq<char>)
    requires
        is_ascii_chars(key),
        !key.contains('='),
    ensures
        codegen_key(option) == encode_utf8(key) <==> option_has_key(option, key),
        option_has_key(option, key) ==> codegen_value(option) == if option == encode_utf8(key) {
            None
        } else {
            Some(option.skip(key.len() as int + 1))
        },
{
    lemma_flag(key);
    let bytes = encode_utf8(key);
    lemma_first_place(option, 61, 0);
    assert forall|i: int| 0 <= i < bytes.len() implies #[trigger] bytes[i] != 61 by {
        if bytes[i] == 61 {
            assert(key[i] as u8 == 61);
            assert(key[i] == '=');
            assert(key.contains(key[i]));
        }
    }
    match first_place(option, 61, 0) {
        Some(place) => {
            if option.take(place) == bytes {
                assert(bytes.push(61).is_prefix_of(option)) by {
                    assert(option.take(place + 1) =~= bytes.push(61));
                }
            }
            if option == bytes {
                assert(bytes[place] != 61);
            }
            if bytes.push(61).is_prefix_of(option) {
                assert(option.take(bytes.len() as int + 1) =~= bytes.push(61));
                assert(option[bytes.len() as int] == bytes.push(61)[bytes.len() as int]);
                if place < bytes.len() {
                    assert(option[place] == bytes.push(61)[place]);
                    assert(bytes[place] != 61);
                }
                assert(place == bytes.len());
                assert(option.take(place) =~= bytes);
            }
        },
        None => {
            if bytes.push(61).is_prefix_of(option) {
                assert(option.take(bytes.len() as int + 1) =~= bytes.push(61));
                assert(option[bytes.len() as int] == bytes.push(61)[bytes.len() as int]);
            }
        },
    }
}

proof fn lemma_control_keys()
    ensures
        is_ascii_chars("profile-generate"@),
        is_ascii_chars("profile-use"@),
        is_ascii_chars("instrument-coverage"@),
        is_ascii_chars("metadata"@),
        is_ascii_chars("extra-filename"@),
        !"profile-generate"@.contains('='),
        !"profile-use"@.contains('='),
        !"instrument-coverage"@.contains('='),
        !"metadata"@.contains('='),
        !"extra-filename"@.contains('='),
{
    reveal_strlit("profile-generate");
    reveal_strlit("profile-use");
    reveal_strlit("instrument-coverage");
    reveal_strlit("metadata");
    reveal_strlit("extra-filename");
}

/// A classification carries a conflict exactly when some codegen option of the arguments has the
/// key of a profiling or coverage control.
pub proof fn law_conflicts_are_the_three_controls(arguments: Seq<Seq<u8>>, target: Seq<u8>)
    ensures
        classified(arguments, target).conflict <==> carries_control(arguments),
{
    lemma_control_keys();
    let count = arguments.len() as int;
    assert forall|option: Seq<u8>| #[trigger]
        is_conflicting_control(codegen_key(option)) <==> (option_has_key(
            option,
            "profile-generate"@,
        ) || option_has_key(option, "profile-use"@) || option_has_key(
            option,
            "instrument-coverage"@,
        )) by {
        lemma_option_key(option, "profile-generate"@);
        lemma_option_key(option, "profile-use"@);
        lemma_option_key(option, "instrument-coverage"@);
    }
    if classified(arguments, target).conflict {
        let i = choose|i: int| 0 <= i < count && #[trigger] carries_conflict(arguments, i);
        let option = meaning(arguments, i)->Codegen_0;
        lemma_option_read(arguments, i, option);
        assert(is_conflicting_control(codegen_key(option)));
        assert(gives_option(arguments, i, option));
    }
    if carries_control(arguments) {
        let (i, option) = choose|index: int, option: Seq<u8>| #[trigger]
            gives_option(arguments, index, option) && (option_has_key(option, "profile-generate"@)
                || option_has_key(option, "profile-use"@) || option_has_key(
                option,
                "instrument-coverage"@,
            ));
        lemma_option_read(arguments, i, option);
        assert(is_conflicting_control(codegen_key(option)));
        assert(carries_conflict(arguments, i));
    }
}

/// A classification goes by the flags of the arguments: a report makes a probe of an invocation,
/// an output for the exact target a target compilation, any other output a host compilation.
pub proof fn law_classes_follow_the_flags(arguments: Seq<Seq<u8>>, target: Seq<u8>)
    ensures
        ({
            let found = classified(arguments, target);
            &&& found.exact_target <==> exists|index: int| #[trigger]
                gives_value(arguments, index, "--target"@, target)
            &&& found.emit <==> exists|index: int| #[trigger]
                raises_flag(arguments, index, "--emit"@)
            &&& found.print <==> exists|index: int| #[trigger]
                raises_flag(arguments, index, "--print"@)
            &&& found.class == if found.print {
                InvocationClass::Probe
            } else if found.emit && found.exact_target {
                InvocationClass::TargetCompile
            } else if found.emit {
                InvocationClass::HostCompile
            } else {
                InvocationClass::Other
            }
        }),
{
    let count = arguments.len() as int;
    let found = classified(arguments, target);
    assert forall|i: int| 0 <= i < count implies (#[trigger] meaning(arguments, i)
        == Meaning::Target(target) <==> gives_value(arguments, i, "--target"@, target)) && (meaning(
        arguments,
        i,
    ) is Emit <==> raises_flag(arguments, i, "--emit"@)) && (meaning(arguments, i) is Print
        <==> raises_flag(arguments, i, "--print"@)) by {
        lemma_target_read(arguments, i, target);
        lemma_emit_read(arguments, i);
    }
    if exists|index: int| #[trigger] gives_value(arguments, index, "--target"@, target) {
        let i = choose|index: int| #[trigger] gives_value(arguments, index, "--target"@, target);
        assert(meaning(arguments, i) == Meaning::Target(target));
    }
    if exists|index: int| #[trigger] raises_flag(arguments, index, "--emit"@) {
        let i = choose|index: int| #[trigger] raises_flag(arguments, index, "--emit"@);
        assert(meaning(arguments, i) is Emit);
    }
    if exists|index: int| #[trigger] raises_flag(arguments, index, "--print"@) {
        let i = choose|index: int| #[trigger] raises_flag(arguments, index, "--print"@);
        assert(meaning(arguments, i) is Print);
    }
}

proof fn lemma_name_among(arguments: Seq<Seq<u8>>, count: int)
    requires
        0 <= count <= arguments.len(),
    ensures
        match crate_name_among(arguments, count) {
            Some(name) => exists|index: int, value: Seq<u8>|
                {
                    &&& #[trigger] gives_value(arguments, index, "--crate-name"@, value)
                    &&& index < count
                    &&& valid_utf8(value)
                    &&& name == bounded_text(decode_utf8(value), 512)
                    &&& forall|later: int, other: Seq<u8>|
                        index < later < count && #[trigger] gives_value(
                            arguments,
                            later,
                            "--crate-name"@,
                            other,
                        ) ==> !valid_utf8(other)
                },
            None => forall|index: int, value: Seq<u8>|
                index < count && #[trigger] gives_value(arguments, index, "--crate-name"@, value)
                    ==> !valid_utf8(value),
        },
    decreases count,
{
    if count > 0 {
        lemma_name_among(arguments, count - 1);
        let last = count - 1;
        assert forall|value: Seq<u8>| #[trigger]
            gives_value(arguments, last, "--crate-name"@, value) implies meaning(arguments, last)
            == Meaning::CrateName(Some(value)) by {
            lemma_crate_read(arguments, last, value);
        }
        match meaning(arguments, last) {
            Meaning::CrateName(Some(value)) => {
                lemma_crate_read(arguments, last, value);
                assert(gives_value(arguments, last, "--crate-name"@, value));
            },
            _ => {},
        }
    }
}

/// The crate name of a classification is the last readable one that the arguments give, cut to
/// its bounded length; there is none exactly where no readable one is given.
pub proof fn law_crate_names_are_the_last_given(arguments: Seq<Seq<u8>>, target: Seq<u8>)
    ensures
        match classified(arguments, target).crate_name {
            Some(name) => exists|index: int, value: Seq<u8>|
                {
                    &&& #[trigger] gives_value(arguments, index, "--crate-name"@, value)
                    &&& valid_utf8(value)
                    &&& name == bounded_text(decode_utf8(value), 512)
                    &&& forall|later: int, other: Seq<u8>|
                        index < later && #[trigger] gives_value(
                            arguments,
                            later,
                            "--crate-name"@,
                            other,
                        ) ==> !valid_utf8(other)
                },
            None => forall|index: int, value: Seq<u8>| #[trigger]
                gives_value(arguments, index, "--crate-name"@, value) ==> !valid_utf8(value),
        },
{
    lemma_name_among(arguments, arguments.len() as int);
}

proof fn lemma_option_among(arguments: Seq<Seq<u8>>, key: Seq<char>, count: int)
    requires
        0 <= count <= arguments.len(),
        is_ascii_chars(key),
        !key.contains('='),
    ensures
        ({
            let found = codegen_among(arguments, encode_utf8(key), count);
            ||| found is None && forall|index: int, option: Seq<u8>|
                index < count && #[trigger] gives_option(arguments, index, option)
                    ==> !option_has_key(option, key)
            ||| exists|index: int, option: Seq<u8>|
                {
                    &&& #[trigger] gives_option(arguments, index, option)
                    &&& index < count
                    &&& option_has_key(option, key)
                    &&& found == option_text(option, key)
                    &&& forall|later: int, other: Seq<u8>|
                        index < later < count && #[trigger] gives_option(arguments, later, other)
                            ==> !option_has_key(other, key)
                }
        }),
    decreases count,
{
    if count > 0 {
        lemma_option_among(arguments, key, count - 1);
        let last = count - 1;
        assert forall|option: Seq<u8>| #[trigger]
            gives_option(arguments, last, option) implies meaning(arguments, last)
            == Meaning::Codegen(option) by {
            lemma_option_read(arguments, last, option);
        }
        match meaning(arguments, last) {
            Meaning::Codegen(option) => {
                lemma_option_read(arguments, last, option);
                lemma_option_key(option, key);
                lemma_flag(key);
                assert(gives_option(arguments, last, option));
            },
            _ => {},
        }
    }
}

/// The bounded text of the value of a codegen option with a key, if there is a readable one.
pub open spec fn option_text(option: Seq<u8>, key: Seq<char>) -> Option<Seq<char>> {
    let value = option.skip(key.len() as int + 1);
    if option != encode_utf8(key) && valid_utf8(value) {
        Some(bounded_text(decode_utf8(value), 512))
    } else {
        None
    }
}

/// Whether `found` is what the last codegen option with a key says; nothing where there is none.
pub open spec fn is_last_option(
    arguments: Seq<Seq<u8>>,
    key: Seq<char>,
    found: Option<Seq<char>>,
) -> bool {
    ||| found is None && forall|index: int, option: Seq<u8>| #[trigger]
        gives_option(arguments, index, option) ==> !option_has_key(option, key)
    ||| exists|index: int, option: Seq<u8>|
        {
            &&& #[trigger] gives_option(arguments, index, option)
            &&& option_has_key(option, key)
            &&& found == option_text(option, key)
            &&& forall|later: int, other: Seq<u8>|
                index < later && #[trigger] gives_option(arguments, later, other)
                    ==> !option_has_key(other, key)
        }
}

/// The artifact identity of a classification is what the last `metadata` and the last
/// `extra-filename` option of the arguments say.
pub proof fn law_artifact_identities_are_the_last_given(arguments: Seq<Seq<u8>>, target: Seq<u8>)
    ensures
        is_last_option(arguments, "metadata"@, classified(arguments, target).metadata),
        is_last_option(arguments, "extra-filename"@, classified(arguments, target).extra_filename),
{
    lemma_control_keys();
    lemma_option_among(arguments, "metadata"@, arguments.len() as int);
    lemma_option_among(arguments, "extra-filename"@, arguments.len() as int);
}

proof fn lemma_types_among(
    arguments: Seq<Seq<u8>>,
    places: Seq<int>,
    values: Seq<Seq<u8>>,
    count: int,
    taken: int,
)
    requires
        0 <= count <= arguments.len(),
        0 <= taken <= places.len() == values.len(),
        forall|i: int|
            0 <= i < places.len() ==> gives_value(
                arguments,
                #[trigger] places[i],
                "--crate-type"@,
                values[i],
            ) && valid_utf8(values[i]),
        forall|i: int, j: int| 0 <= i < j < places.len() ==> #[trigger] places[i] < #[trigger] places[j],
        forall|index: int, value: Seq<u8>| #[trigger]
            gives_value(arguments, index, "--crate-type"@, value) && valid_utf8(value)
                ==> places.contains(index),
        forall|i: int| 0 <= i < places.len() ==> (#[trigger] places[i] < count <==> i < taken),
    ensures
        crate_types_among(arguments, count) == Seq::new(
            taken as nat,
            |i: int| bounded_text(decode_utf8(values[i]), 512),
        ),
    decreases count,
{
    let expected = Seq::new(
        taken as nat,
        |i: int| bounded_text(decode_utf8(values[i]), 512),
    );
    if count == 0 {
        if taken > 0 {
            assert(places[0] < 0);
        }
        assert(crate_types_among(arguments, count) =~= expected);
    } else {
        let last = count - 1;
        if taken > 0 && places[taken - 1] == last {
            lemma_types_among(arguments, places, values, last, taken - 1);
            lemma_crate_read(arguments, last, values[taken - 1]);
            assert(crate_types_among(arguments, count) =~= expected);
        } else {
            assert forall|i: int| 0 <= i < places.len() implies (#[trigger] places[i] < last <==> i
                < taken) by {
                if i < taken && places[i] == last {
                    if i < taken - 1 {
                        assert(places[i] < places[taken - 1]);
                    }
                }
            }
            lemma_types_among(arguments, places, values, last, taken);
            match meaning(arguments, last) {
                Meaning::CrateType(Some(value)) => {
                    lemma_crate_read(arguments, last, value);
                    if valid_utf8(value) {
                        assert(gives_value(arguments, last, "--crate-type"@, value));
                        let i = choose|i: int| 0 <= i < places.len() && places[i] == last;
                        assert(places[i] < count);
                        if i < taken - 1 {
                            assert(places[i] < places[taken - 1]);
                        }
                    }
                },
                _ => {},
            }
        }
    }
}

/// The crate types of a classification are the readable ones that the arguments give, in their
/// order, up to the bounded number.
pub proof fn law_crate_types_are_those_given(
    arguments: Seq<Seq<u8>>,
    target: Seq<u8>,
    places: Seq<int>,
    values: Seq<Seq<u8>>,
)
    requires
        places.len() == values.len(),
        forall|i: int|
            0 <= i < places.len() ==> gives_value(
                arguments,
                #[trigger] places[i],
                "--crate-type"@,
                values[i],
            ) && valid_utf8(values[i]),
        forall|i: int, j: int| 0 <= i < j < places.len() ==> #[trigger] places[i] < #[trigger] places[j],
        forall|index: int, value: Seq<u8>| #[trigger]
            gives_value(arguments, index, "--crate-type"@, value) && valid_utf8(value)
                ==> places.contains(index),
    ensures
        classified(arguments, target).crate_types.len() == if places.len() <= 16 {
            places.len()
        } else {
            16
        },
        forall|i: int|
            0 <= i < classified(arguments, target).crate_types.len() ==> #[trigger] classified(
                arguments,
                target,
            ).crate_types[i] == bounded_text(decode_utf8(values[i]), 512),
{
    lemma_types_among(
        arguments,
        places,
        values,
        arguments.len() as int,
        places.len() as int,
    );
}

/// Whether two arguments name different targets.
pub open spec fn targets_disagree(arguments: Seq<Seq<u8>>) -> bool {
    exists|first: int, second: int, one: Seq<u8>, other: Seq<u8>|
        #![trigger gives_value(arguments, first, "--target"@, one), gives_value(arguments, second, "--target"@, other)]
        gives_value(arguments, first, "--target"@, one) && gives_value(
            arguments,
            second,
            "--target"@,
            other,
        ) && one != other
}

/// Whether some argument names a crate without a readable name.
pub open spec fn crate_name_is_lost(arguments: Seq<Seq<u8>>) -> bool {
    ||| arguments.len() > 0 && arguments.last() == encode_utf8("--crate-name"@)
    ||| exists|index: int, value: Seq<u8>| #[trigger]
        gives_value(arguments, index, "--crate-name"@, value) && !valid_utf8(value)
}

/// A classification is ambiguous exactly where two arguments name different targets, or where a
/// target compilation has no crate name, one that cannot be read, or too many arguments.
pub proof fn law_ambiguity_is_what_cannot_be_told(arguments: Seq<Seq<u8>>, target: Seq<u8>)
    ensures
        ({
            let found = classified(arguments, target);
            found.ambiguous <==> targets_disagree(arguments) || (found.class
                == InvocationClass::TargetCompile && (found.crate_name is None
                || crate_name_is_lost(arguments) || arguments.len() > 2_048))
        }),
{
    let count = arguments.len() as int;
    if names_two_targets(arguments, count) {
        let (i, j) = choose|i: int, j: int|
            0 <= i < count && 0 <= j < count && (#[trigger] meaning(arguments, i)) is Target && (
            #[trigger] meaning(arguments, j)) is Target && meaning(arguments, i) != meaning(
                arguments,
                j,
            );
        let one = meaning(arguments, i)->Target_0;
        let other = meaning(arguments, j)->Target_0;
        lemma_target_read(arguments, i, one);
        lemma_target_read(arguments, j, other);
        assert(gives_value(arguments, i, "--target"@, one));
        assert(gives_value(arguments, j, "--target"@, other));
    }
    if targets_disagree(arguments) {
        let (i, j, one, other) = choose|first: int, second: int, one: Seq<u8>, other: Seq<u8>|
            #![trigger gives_value(arguments, first, "--target"@, one), gives_value(arguments, second, "--target"@, other)]
            gives_value(arguments, first, "--target"@, one) && gives_value(
                arguments,
                second,
                "--target"@,
                other,
            ) && one != other;
        lemma_target_read(arguments, i, one);
        lemma_target_read(arguments, j, other);
        assert(meaning(arguments, i) != meaning(arguments, j));
    }
    if exists|i: int| 0 <= i < count && #[trigger] loses_crate_name(arguments, i) {
        let i = choose|i: int| 0 <= i < count && #[trigger] loses_crate_name(arguments, i);
        match meaning(arguments, i) {
            Meaning::CrateName(Some(value)) => {
                lemma_crate_read(arguments, i, value);
                assert(gives_value(arguments, i, "--crate-name"@, value));
            },
            _ => {
                lemma_crate_read(arguments, i, Seq::empty());
            },
        }
    }
    if crate_name_is_lost(arguments) {
        if arguments.len() > 0 && arguments.last() == encode_utf8("--crate-name"@) {
            lemma_crate_read(arguments, count - 1, Seq::empty());
            assert(loses_crate_name(arguments, count - 1));
        } else {
            let (i, value) = choose|index: int, value: Seq<u8>| #[trigger]
                gives_value(arguments, index, "--crate-name"@, value) && !valid_utf8(value);
            lemma_crate_read(arguments, i, value);
            assert(loses_crate_name(arguments, i));
        }
    }
}

/// Whether an argument list is an ordinary compilation for `target`: it asks for output and for no
/// report, names that target and no other, gives a crate name that can be read, and is not too
/// long.
pub open spec fn compiles_for(arguments: Seq<Seq<u8>>, target: Seq<u8>) -> bool {
    &&& exists|index: int| #[trigger] raises_flag(arguments, index, "--emit"@)
    &&& !exists|index: int| #[trigger] raises_flag(arguments, index, "--print"@)
    &&& exists|index: int| #[trigger] gives_value(arguments, index, "--target"@, target)
    &&& !targets_disagree(arguments)
    &&& exists|index: int, value: Seq<u8>| #[trigger]
        gives_value(arguments, index, "--crate-name"@, value)
    &&& !crate_name_is_lost(arguments)
    &&& arguments.len() <= 2_048
}

/// An ordinary compilation for the target is refused exactly where it carries one of the three
/// controls, and then for that reason.
pub proof fn law_ordinary_compilations_are_not_refused(arguments: Seq<Seq<u8>>, target: Seq<u8>)
    requires
        compiles_for(arguments, target),
    ensures
        classified(arguments, target).class == InvocationClass::TargetCompile,
        rejection_of(classified(arguments, target)) == if carries_control(arguments) {
            Some("pgo_compiler_input_conflict"@)
        } else {
            None
        },
{
    law_classes_follow_the_flags(arguments, target);
    law_conflicts_are_the_three_controls(arguments, target);
    law_ambiguity_is_what_cannot_be_told(arguments, target);
    law_crate_names_are_the_last_given(arguments, target);
    let (i, value) = choose|index: int, value: Seq<u8>| #[trigger]
        gives_value(arguments, index, "--crate-name"@, value);
    assert(valid_utf8(value)) by {
        if !valid_utf8(value) {
            assert(gives_value(arguments, i, "--crate-name"@, value));
        }
    }
}

proof fn lemma_replaced_tail(
    head: Seq<u8>,
    tail: Seq<u8>,
    root: Seq<u8>,
    mark: Seq<u8>,
    from: int,
)
    requires
        root.len() > 0,
        0 <= from <= tail.len(),
    ensures
        replaced_from(head + tail, root, mark, head.len() + from) == replaced_from(
            tail,
            root,
            mark,
            from,
        ),
    decreases tail.len() - from,
{
    let whole = head + tail;
    if from < tail.len() {
        assert(whole.skip(head.len() + from) =~= tail.skip(from));
        assert(whole[head.len() + from] == tail[from]);
        if root.is_prefix_of(tail.skip(from)) {
            assert(root.len() <= tail.skip(from).len());
            lemma_replaced_tail(head, tail, root, mark, from + root.len());
        } else {
            lemma_replaced_tail(head, tail, root, mark, from + 1);
        }
    }
}

proof fn lemma_replaced_head(
    argument: Seq<u8>,
    root: Seq<u8>,
    mark: Seq<u8>,
    from: int,
    place: int,
)
    requires
        0 <= from <= place < argument.len(),
        root.len() > 0,
        root_stands_at(argument, root, place),
        forall|i: int| from <= i < place ==> !#[trigger] root_stands_at(argument, root, i),
    ensures
        replaced_from(argument, root, mark, from) == argument.subrange(from, place) + mark
            + replaced_from(argument, root, mark, place + root.len()),
    decreases place - from,
{
    let rest = replaced_from(argument, root, mark, place + root.len());
    if from < place {
        assert(!root_stands_at(argument, root, from));
        lemma_replaced_head(argument, root, mark, from + 1, place);
        assert(argument.subrange(from, place) =~= seq![argument[from]] + argument.subrange(
            from + 1,
            place,
        ));
    } else {
        assert(argument.subrange(from, place) =~= Seq::empty());
    }
    assert(replaced_from(argument, root, mark, from) =~= argument.subrange(from, place) + mark
        + rest);
}

/// Every place where the stage root stands is replaced: behind the first one, the rest of the
/// argument is normalized in the same way.
pub proof fn law_normalization_goes_on_behind_a_root(head: Seq<u8>, root: Seq<u8>, tail: Seq<u8>)
    requires
        root.len() > 0,
        forall|i: int|
            0 <= i < head.len() ==> !#[trigger] root_stands_at(head + root + tail, root, i),
    ensures
        normalized(head + root + tail, root) == head + encode_utf8("<STAGE_ROOT>"@) + normalized(
            tail,
            root,
        ),
{
    let whole = head + root + tail;
    let place = head.len() as int;
    let mark = encode_utf8("<STAGE_ROOT>"@);
    assert(whole.skip(place).take(root.len() as int) =~= root);
    assert(root_stands_at(whole, root, place));
    lemma_replaced_head(whole, root, mark, 0, place);
    assert(whole.subrange(0, place) =~= head);
    lemma_replaced_tail(head + root, tail, root, mark, 0);
}

} // verus!
