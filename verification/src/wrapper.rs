//! The experiment wrapper: it stands before the compiler, and logs what passes or emulates a
//! compiler cache that does not depend on the build directory.

use vstd::prelude::*;
use vstd::slice::slice_to_vec;
use vstd::string::*;
use vstd::utf8::*;

use crate::classify::{lemma_replaced_between, replace_root, replaced, stands_once};
use crate::harness::readable_next;
use crate::hash::{framed_values, push_framed, sha256_hex, sha256_text};
use crate::json::{
    displayed_texts, json_array, json_optional, json_string, push_display_array, push_json_string,
    push_optional_string,
};
use crate::paths::{file_name, file_name_of};
use crate::text::{
    byte_strings, characters, decoded, has_prefix, lossy, lossy_text, optional_bytes, optional_text,
    same_bytes, same_text,
};

verus! {

pub const WRAPPER_FAILURE_EXIT: i32 = 96;

/// What stands for the build directory in a cache key.
pub const ROOT_MARK: &'static str = "<ROOT>";

/// An argument without the build directory.
pub open spec fn stripped(argument: Seq<u8>, strip: Option<Seq<u8>>) -> Seq<u8> {
    match strip {
        Some(root) => replaced(argument, root, encode_utf8(ROOT_MARK@)),
        None => argument,
    }
}

/// Takes the build directory out of an argument.
pub fn normalize(argument: &[u8], strip: &Option<Vec<u8>>) -> (bytes: Vec<u8>)
    ensures
        bytes@ == stripped(argument@, optional_bytes(*strip)),
{
    match strip {
        Some(root) => replace_root(argument, root.as_slice(), ROOT_MARK.as_bytes()),
        None => slice_to_vec(argument),
    }
}

/// The arguments that enter a cache key: those of the first `count` that are not empty once the
/// build directory was taken out.
pub open spec fn keyed_arguments(
    arguments: Seq<Seq<u8>>,
    strip: Option<Seq<u8>>,
    count: int,
) -> Seq<Seq<u8>>
    decreases count,
{
    if count <= 0 {
        Seq::empty()
    } else {
        let before = keyed_arguments(arguments, strip, count - 1);
        let argument = stripped(arguments[count - 1], strip);
        if argument.len() == 0 {
            before
        } else {
            before.push(argument)
        }
    }
}

/// A variable's value, or nothing.
pub open spec fn bytes_or_empty(value: Option<Seq<u8>>) -> Seq<u8> {
    match value {
        Some(bytes) => bytes,
        None => Seq::empty(),
    }
}

/// What a cache key is made of.
pub open spec fn key_values(
    program: Seq<u8>,
    forwarded: Seq<Seq<u8>>,
    strip: Option<Seq<u8>>,
    encoded_rustflags: Option<Seq<u8>>,
    rustflags: Option<Seq<u8>>,
) -> Seq<Seq<u8>> {
    (seq![program] + keyed_arguments(forwarded, strip, forwarded.len() as int)).push(
        bytes_or_empty(encoded_rustflags),
    ).push(bytes_or_empty(rustflags))
}

fn push_value(framed: &mut Vec<u8>, value: &[u8], Ghost(values): Ghost<Seq<Seq<u8>>>)
    requires
        old(framed)@ == framed_values(values),
    ensures
        final(framed)@ == framed_values(values.push(value@)),
{
    push_framed(framed, value);
    assert(values.push(value@).drop_last() =~= values);
}

fn push_optional(framed: &mut Vec<u8>, value: &Option<Vec<u8>>, Ghost(values): Ghost<Seq<Seq<u8>>>)
    requires
        old(framed)@ == framed_values(values),
    ensures
        final(framed)@ == framed_values(values.push(bytes_or_empty(optional_bytes(*value)))),
{
    match value {
        Some(bytes) => push_value(framed, bytes.as_slice(), Ghost(values)),
        None => {
            let empty: Vec<u8> = Vec::new();
            push_value(framed, empty.as_slice(), Ghost(values));
            assert(empty@ =~= Seq::empty());
        },
    }
}

/// The key under which the results of an invocation are cached.
pub fn cache_key(
    program: &[u8],
    forwarded: &Vec<Vec<u8>>,
    strip: &Option<Vec<u8>>,
    encoded_rustflags: &Option<Vec<u8>>,
    rustflags: &Option<Vec<u8>>,
) -> (key: String)
    ensures
        key@ == sha256_text(
            framed_values(
                key_values(
                    program@,
                    byte_strings(forwarded@),
                    optional_bytes(*strip),
                    optional_bytes(*encoded_rustflags),
                    optional_bytes(*rustflags),
                ),
            ),
        ),
{
    let mut framed: Vec<u8> = Vec::new();
    let ghost views = byte_strings(forwarded@);
    let ghost root = optional_bytes(*strip);
    assert(framed@ =~= framed_values(Seq::empty()));
    push_value(&mut framed, program, Ghost(Seq::empty()));
    let ghost mut values = seq![program@];
    proof {
        assert(Seq::<Seq<u8>>::empty().push(program@) =~= values);
        assert(values =~= seq![program@] + keyed_arguments(views, root, 0));
    }
    let mut index: usize = 0;
    while index < forwarded.len()
        invariant
            index <= forwarded@.len(),
            views == byte_strings(forwarded@),
            root == optional_bytes(*strip),
            values == seq![program@] + keyed_arguments(views, root, index as int),
            framed@ == framed_values(values),
        decreases forwarded@.len() - index,
    {
        let argument = normalize(forwarded[index].as_slice(), strip);
        if argument.len() > 0 {
            push_value(&mut framed, argument.as_slice(), Ghost(values));
            proof {
                values = values.push(argument@);
            }
        }
        proof {
            assert(values =~= seq![program@] + keyed_arguments(views, root, index + 1));
        }
        index = index + 1;
    }
    push_optional(&mut framed, encoded_rustflags, Ghost(values));
    push_optional(
        &mut framed,
        rustflags,
        Ghost(values.push(bytes_or_empty(optional_bytes(*encoded_rustflags)))),
    );
    sha256_hex(framed.as_slice())
}

/// The place of the first argument, from `from` on, that is a name.
pub open spec fn name_place(arguments: Seq<Seq<u8>>, name: Seq<u8>, from: int) -> Option<int>
    decreases arguments.len() - from,
{
    if from < 0 || from >= arguments.len() {
        None
    } else if arguments[from] == name {
        Some(from)
    } else {
        name_place(arguments, name, from + 1)
    }
}

/// The argument behind the first that is a name, displayed.
pub open spec fn argument_value(arguments: Seq<Seq<u8>>, name: Seq<char>) -> Option<Seq<char>> {
    match name_place(arguments, encode_utf8(name), 0) {
        Some(place) if place + 1 < arguments.len() => Some(lossy_text(arguments[place + 1])),
        _ => None,
    }
}

/// The argument behind the first that is a name, displayed.
pub fn value_of(arguments: &Vec<Vec<u8>>, name: &str) -> (value: Option<String>)
    ensures
        optional_text(value) == argument_value(byte_strings(arguments@), name@),
{
    let total: usize = arguments.len();
    let ghost views = byte_strings(arguments@);
    let mut index: usize = 0;
    while index < total
        invariant
            index <= total == arguments@.len(),
            views == byte_strings(arguments@),
            name_place(views, encode_utf8(name@), 0) == name_place(
                views,
                encode_utf8(name@),
                index as int,
            ),
        decreases total - index,
    {
        assert(views[index as int] == arguments@[index as int]@);
        if same_bytes(arguments[index].as_slice(), name.as_bytes()) {
            if total - index > 1 {
                return Some(lossy(arguments[index + 1].as_slice()));
            }
            return None;
        }
        index = index + 1;
    }
    None
}

/// Whether one of the first `count` arguments asks for output.
pub open spec fn asks_for_output(arguments: Seq<Seq<u8>>, count: int) -> bool {
    exists|i: int|
        0 <= i < count && encode_utf8("--emit"@).is_prefix_of(#[trigger] arguments[i])
}

fn compiles(arguments: &Vec<Vec<u8>>) -> (found: bool)
    ensures
        found == asks_for_output(byte_strings(arguments@), arguments@.len() as int),
{
    let ghost views = byte_strings(arguments@);
    let mut index: usize = 0;
    while index < arguments.len()
        invariant
            index <= arguments@.len(),
            views == byte_strings(arguments@),
            !asks_for_output(views, index as int),
        decreases arguments@.len() - index,
    {
        assert(views[index as int] == arguments@[index as int]@);
        if has_prefix(arguments[index].as_slice(), "--emit".as_bytes()) {
            return true;
        }
        index = index + 1;
    }
    false
}

/// The values that steer the wrapper.
#[derive(Debug)]
pub struct WrapperValues {
    pub mode: Option<Vec<u8>>,
    pub label: Option<Vec<u8>>,
    pub strip: Option<Vec<u8>>,
    pub cached_crate: Option<Vec<u8>>,
    pub encoded_rustflags: Option<Vec<u8>>,
    pub rustflags: Option<Vec<u8>>,
}

/// What the wrapper does with one invocation.
#[derive(Debug)]
pub struct WrapperPlan {
    pub program: Vec<u8>,
    pub forwarded: Vec<Vec<u8>>,
    pub key: String,
    pub crate_name: Option<String>,
    pub out_dir: Option<String>,
    /// Whether the cache is consulted; else the invocation passes through.
    pub cached: bool,
}

/// Whether the results of a crate may be cached: an unset, unreadable or empty variable names
/// every crate.
pub open spec fn may_cache(wanted: Option<Seq<u8>>, crate_name: Option<Seq<char>>) -> bool {
    match readable_next(wanted) {
        Some(name) if name.len() > 0 => crate_name == Some(name),
        _ => true,
    }
}

/// Whether an invocation consults the cache.
pub open spec fn consults_cache(values: WrapperValues, forwarded: Seq<Seq<u8>>) -> bool {
    &&& readable_next(optional_bytes(values.mode)) == Some("cache"@)
    &&& asks_for_output(forwarded, forwarded.len() as int)
    &&& may_cache(
        optional_bytes(values.cached_crate),
        argument_value(forwarded, "--crate-name"@),
    )
}

fn cacheable(wanted: &Option<Vec<u8>>, crate_name: &Option<String>) -> (may: bool)
    ensures
        may == may_cache(optional_bytes(*wanted), optional_text(*crate_name)),
{
    let name = match wanted {
        Some(bytes) => decoded(bytes.as_slice()),
        None => None,
    };
    match name {
        Some(text) => if characters(text.as_str()).len() == 0 {
            true
        } else {
            match crate_name {
                Some(found) => same_text(found.as_str(), text.as_str()),
                None => false,
            }
        },
        None => true,
    }
}

/// Decides what to do with one invocation: its first argument is the wrapped program.
pub fn plan_wrapping(arguments: &Vec<Vec<u8>>, values: &WrapperValues) -> (plan: Option<WrapperPlan>)
    ensures
        plan is None <==> arguments@.len() == 0,
        plan matches Some(plan) ==> {
            let forwarded = byte_strings(arguments@).skip(1);
            &&& plan.program@ == arguments@[0]@
            &&& byte_strings(plan.forwarded@) == forwarded
            &&& plan.key@ == sha256_text(
                framed_values(
                    key_values(
                        arguments@[0]@,
                        forwarded,
                        optional_bytes(values.strip),
                        optional_bytes(values.encoded_rustflags),
                        optional_bytes(values.rustflags),
                    ),
                ),
            )
            &&& optional_text(plan.crate_name) == argument_value(forwarded, "--crate-name"@)
            &&& optional_text(plan.out_dir) == argument_value(forwarded, "--out-dir"@)
            &&& plan.cached == consults_cache(*values, forwarded)
        },
{
    if arguments.len() == 0 {
        return None;
    }
    let mut forwarded: Vec<Vec<u8>> = Vec::new();
    let mut index: usize = 1;
    while index < arguments.len()
        invariant
            1 <= index <= arguments@.len(),
            byte_strings(forwarded@) == byte_strings(arguments@).subrange(1, index as int),
        decreases arguments@.len() - index,
    {
        let ghost before = forwarded@;
        forwarded.push(arguments[index].clone());
        proof {
            assert(byte_strings(forwarded@) =~= byte_strings(before).push(
                arguments@[index as int]@,
            ));
            assert(byte_strings(arguments@).subrange(1, index + 1) =~= byte_strings(
                arguments@,
            ).subrange(1, index as int).push(arguments@[index as int]@));
        }
        index = index + 1;
    }
    proof {
        assert(byte_strings(arguments@).subrange(1, index as int) =~= byte_strings(
            arguments@,
        ).skip(1));
    }
    let program = arguments[0].clone();
    let key = cache_key(
        program.as_slice(),
        &forwarded,
        &values.strip,
        &values.encoded_rustflags,
        &values.rustflags,
    );
    let crate_name = value_of(&forwarded, "--crate-name");
    let out_dir = value_of(&forwarded, "--out-dir");
    let asked = match &values.mode {
        Some(bytes) => match decoded(bytes.as_slice()) {
            Some(text) => same_text(text.as_str(), "cache"),
            None => false,
        },
        None => false,
    };
    let cached = asked && compiles(&forwarded) && cacheable(&values.cached_crate, &crate_name);
    Some(WrapperPlan { program, forwarded, key, crate_name, out_dir, cached })
}

/// The label of the wrapper: the one it was given, or the name of its executable.
pub open spec fn label_of(given: Option<Seq<u8>>, executable: Option<Seq<u8>>) -> Seq<char> {
    match readable_next(given) {
        Some(label) => label,
        None => match executable {
            None => "wrapper"@,
            Some(path) => match file_name_of(path) {
                Some(name) => lossy_text(name),
                None => "wrapper"@,
            },
        },
    }
}

/// The label of the wrapper.
pub fn wrapper_label(given: &Option<Vec<u8>>, executable: &Option<Vec<u8>>) -> (label: String)
    ensures
        label@ == label_of(optional_bytes(*given), optional_bytes(*executable)),
{
    if let Some(bytes) = given {
        if let Some(label) = decoded(bytes.as_slice()) {
            return label;
        }
    }
    match executable {
        None => "wrapper".to_owned(),
        Some(path) => match file_name(path.as_slice()) {
            Some(name) => lossy(name.as_slice()),
            None => "wrapper".to_owned(),
        },
    }
}

/// What became of an invocation.
#[derive(Clone, Copy, Debug, PartialEq, Eq, Structural)]
pub enum WrapperOutcome {
    PassThrough,
    CacheHit,
    CacheMiss,
}

/// The label of an outcome.
pub open spec fn wrapper_outcome_label(outcome: WrapperOutcome) -> Seq<char> {
    match outcome {
        WrapperOutcome::PassThrough => "pass_through"@,
        WrapperOutcome::CacheHit => "cache_hit"@,
        WrapperOutcome::CacheMiss => "cache_miss"@,
    }
}

fn outcome_label(outcome: WrapperOutcome) -> (label: &'static str)
    ensures
        label@ == wrapper_outcome_label(outcome),
{
    match outcome {
        WrapperOutcome::PassThrough => "pass_through",
        WrapperOutcome::CacheHit => "cache_hit",
        WrapperOutcome::CacheMiss => "cache_miss",
    }
}

/// One line of the wrapper's log.
pub open spec fn logged_line(label: Seq<char>, outcome: WrapperOutcome, plan: WrapperPlan) -> Seq<
    char,
> {
    "{\"label\":"@ + json_string(label) + ",\"outcome\":"@ + json_string(
        wrapper_outcome_label(outcome),
    ) + ",\"cache_key\":"@ + json_string(plan.key@) + ",\"received_digest\":"@ + json_string(
        sha256_text(framed_values(seq![plan.program@] + byte_strings(plan.forwarded@))),
    ) + ",\"crate_name\":"@ + json_optional(optional_text(plan.crate_name))
        + ",\"next_program\":"@ + json_string(lossy_text(plan.program@)) + ",\"received_argv\":"@
        + json_array(displayed_texts(byte_strings(plan.forwarded@))) + "}\n"@
}

fn received_digest(program: &[u8], forwarded: &Vec<Vec<u8>>) -> (digest: String)
    ensures
        digest@ == sha256_text(framed_values(seq![program@] + byte_strings(forwarded@))),
{
    let mut framed: Vec<u8> = Vec::new();
    let ghost views = byte_strings(forwarded@);
    assert(framed@ =~= framed_values(Seq::empty()));
    push_value(&mut framed, program, Ghost(Seq::empty()));
    proof {
        assert(Seq::<Seq<u8>>::empty().push(program@) =~= seq![program@] + views.take(0));
    }
    let mut index: usize = 0;
    while index < forwarded.len()
        invariant
            index <= forwarded@.len(),
            views == byte_strings(forwarded@),
            framed@ == framed_values(seq![program@] + views.take(index as int)),
        decreases forwarded@.len() - index,
    {
        push_value(
            &mut framed,
            forwarded[index].as_slice(),
            Ghost(seq![program@] + views.take(index as int)),
        );
        proof {
            assert((seq![program@] + views.take(index as int)).push(forwarded@[index as int]@)
                =~= seq![program@] + views.take(index + 1));
        }
        index = index + 1;
    }
    assert(views.take(index as int) =~= views);
    sha256_hex(framed.as_slice())
}

/// Writes one line of the wrapper's log.
pub fn log_line(label: &str, outcome: WrapperOutcome, plan: &WrapperPlan) -> (json: String)
    ensures
        json@ == logged_line(label@, outcome, *plan),
{
    let digest = received_digest(plan.program.as_slice(), &plan.forwarded);
    let mut json = "{\"label\":".to_owned();
    push_json_string(&mut json, label);
    json.append(",\"outcome\":");
    push_json_string(&mut json, outcome_label(outcome));
    json.append(",\"cache_key\":");
    push_json_string(&mut json, plan.key.as_str());
    json.append(",\"received_digest\":");
    push_json_string(&mut json, digest.as_str());
    json.append(",\"crate_name\":");
    push_optional_string(&mut json, &plan.crate_name);
    json.append(",\"next_program\":");
    push_json_string(&mut json, lossy(plan.program.as_slice()).as_str());
    json.append(",\"received_argv\":");
    push_display_array(&mut json, &plan.forwarded);
    json.append("}\n");
    json
}

/// A file of the output directory, with what tells whether it changed.
#[derive(Debug)]
pub struct FileStamp {
    pub name: Vec<u8>,
    pub length: u64,
    pub modified: u128,
}

/// Whether a file stands among `stamps` as it is.
pub open spec fn stands_among(stamps: Seq<FileStamp>, stamp: FileStamp) -> bool {
    exists|i: int|
        0 <= i < stamps.len() && (#[trigger] stamps[i]).name@ == stamp.name@ && stamps[i].length
            == stamp.length && stamps[i].modified == stamp.modified
}

/// The names of the first `count` files that are new or changed.
pub open spec fn changed_names(
    before: Seq<FileStamp>,
    after: Seq<FileStamp>,
    count: int,
) -> Seq<Seq<u8>>
    decreases count,
{
    if count <= 0 {
        Seq::empty()
    } else if stands_among(before, after[count - 1]) {
        changed_names(before, after, count - 1)
    } else {
        changed_names(before, after, count - 1).push(after[count - 1].name@)
    }
}

fn holds_stamp(stamps: &Vec<FileStamp>, stamp: &FileStamp) -> (found: bool)
    ensures
        found == stands_among(stamps@, *stamp),
{
    let mut index: usize = 0;
    while index < stamps.len()
        invariant
            index <= stamps@.len(),
            forall|i: int|
                0 <= i < index ==> !((#[trigger] stamps@[i]).name@ == stamp.name@
                    && stamps@[i].length == stamp.length && stamps@[i].modified == stamp.modified),
        decreases stamps@.len() - index,
    {
        let other = &stamps[index];
        if same_bytes(other.name.as_slice(), stamp.name.as_slice()) && other.length == stamp.length
            && other.modified == stamp.modified {
            return true;
        }
        index = index + 1;
    }
    false
}

/// The files that a compilation made or changed: those are stored in the cache.
pub fn changed_files(before: &Vec<FileStamp>, after: &Vec<FileStamp>) -> (names: Vec<Vec<u8>>)
    ensures
        byte_strings(names@) == changed_names(before@, after@, after@.len() as int),
{
    let mut names: Vec<Vec<u8>> = Vec::new();
    let mut index: usize = 0;
    assert(byte_strings(names@) =~= Seq::empty());
    while index < after.len()
        invariant
            index <= after@.len(),
            byte_strings(names@) == changed_names(before@, after@, index as int),
        decreases after@.len() - index,
    {
        if !holds_stamp(before, &after[index]) {
            let ghost earlier = names@;
            names.push(after[index].name.clone());
            assert(byte_strings(names@) =~= byte_strings(earlier).push(
                after@[index as int].name@,
            ));
        }
        index = index + 1;
    }
    names
}

/// The exit code that is passed on: that of the compiler, or one where a signal ended it.
pub fn passed_exit_code(code: Option<i32>) -> (passed: i32)
    ensures
        passed == match code {
            Some(code) => code,
            None => 1i32,
        },
{
    match code {
        Some(code) => code,
        None => 1,
    }
}

/// A cache key does not depend on the build directory: arguments that name it once, and differ
/// in nothing else, enter the key alike.
pub proof fn law_cache_keys_forget_the_build_directory(
    program: Seq<u8>,
    first: Seq<Seq<u8>>,
    second: Seq<Seq<u8>>,
    heads: Seq<Seq<u8>>,
    tails: Seq<Seq<u8>>,
    first_root: Seq<u8>,
    second_root: Seq<u8>,
    encoded_rustflags: Option<Seq<u8>>,
    rustflags: Option<Seq<u8>>,
)
    requires
        first_root.len() > 0,
        second_root.len() > 0,
        first.len() == second.len() == heads.len() == tails.len(),
        forall|i: int|
            0 <= i < first.len() ==> {
                &&& #[trigger] first[i] == heads[i] + first_root + tails[i]
                &&& second[i] == heads[i] + second_root + tails[i]
                &&& stands_once(heads[i], first_root, tails[i])
                &&& stands_once(heads[i], second_root, tails[i])
            },
    ensures
        key_values(program, first, Some(first_root), encoded_rustflags, rustflags) == key_values(
            program,
            second,
            Some(second_root),
            encoded_rustflags,
            rustflags,
        ),
{
    lemma_keyed_alike(
        first,
        second,
        heads,
        tails,
        first_root,
        second_root,
        first.len() as int,
    );
}

proof fn lemma_keyed_alike(
    first: Seq<Seq<u8>>,
    second: Seq<Seq<u8>>,
    heads: Seq<Seq<u8>>,
    tails: Seq<Seq<u8>>,
    first_root: Seq<u8>,
    second_root: Seq<u8>,
    count: int,
)
    requires
        first_root.len() > 0,
        second_root.len() > 0,
        first.len() == second.len() == heads.len() == tails.len(),
        0 <= count <= first.len(),
        forall|i: int|
            0 <= i < first.len() ==> {
                &&& #[trigger] first[i] == heads[i] + first_root + tails[i]
                &&& second[i] == heads[i] + second_root + tails[i]
                &&& stands_once(heads[i], first_root, tails[i])
                &&& stands_once(heads[i], second_root, tails[i])
            },
    ensures
        keyed_arguments(first, Some(first_root), count) == keyed_arguments(
            second,
            Some(second_root),
            count,
        ),
    decreases count,
{
    if count > 0 {
        let last = count - 1;
        lemma_keyed_alike(first, second, heads, tails, first_root, second_root, last);
        assert(first[last] == heads[last] + first_root + tails[last]);
        lemma_replaced_between(heads[last], first_root, tails[last], encode_utf8(ROOT_MARK@));
        lemma_replaced_between(heads[last], second_root, tails[last], encode_utf8(ROOT_MARK@));
    }
}

/// The files that a compilation made or changed, in order.
pub open spec fn made_or_changed(before: Seq<FileStamp>, after: Seq<FileStamp>) -> Seq<FileStamp> {
    after.filter(
        |stamp: FileStamp|
            !exists|i: int|
                0 <= i < before.len() && (#[trigger] before[i]).name@ == stamp.name@
                    && before[i].length == stamp.length && before[i].modified == stamp.modified,
    )
}

/// Exactly the files that are new, or have another length or time than before, are stored.
pub proof fn law_changed_files_are_stored(before: Seq<FileStamp>, after: Seq<FileStamp>)
    ensures
        changed_names(before, after, after.len() as int) == made_or_changed(
            before,
            after,
        ).map_values(|stamp: FileStamp| stamp.name@),
{
    lemma_changed_files(before, after, after.len() as int);
    assert(after.take(after.len() as int) =~= after);
}

proof fn lemma_changed_files(before: Seq<FileStamp>, after: Seq<FileStamp>, count: int)
    requires
        0 <= count <= after.len(),
    ensures
        changed_names(before, after, count) == made_or_changed(
            before,
            after.take(count),
        ).map_values(|stamp: FileStamp| stamp.name@),
    decreases count,
{
    reveal(Seq::filter);
    let some = after.take(count);
    if count > 0 {
        lemma_changed_files(before, after, count - 1);
        assert(some.drop_last() =~= after.take(count - 1));
        assert(some.last() == after[count - 1]);
    }
    assert(changed_names(before, after, count) =~= made_or_changed(before, some).map_values(
        |stamp: FileStamp| stamp.name@,
    ));
}

/// The arguments as they enter a cache key, those without any letter left out.
pub open spec fn marked_arguments(arguments: Seq<Seq<u8>>, strip: Option<Seq<u8>>) -> Seq<Seq<u8>> {
    arguments.map_values(
        |argument: Seq<u8>|
            match strip {
                Some(root) => replaced(argument, root, encode_utf8("<ROOT>"@)),
                None => argument,
            },
    ).filter(|argument: Seq<u8>| argument.len() > 0)
}

proof fn lemma_marked_arguments(arguments: Seq<Seq<u8>>, strip: Option<Seq<u8>>, count: int)
    requires
        0 <= count <= arguments.len(),
    ensures
        keyed_arguments(arguments, strip, count) == marked_arguments(arguments.take(count), strip),
    decreases count,
{
    reveal(Seq::filter);
    let some = arguments.take(count);
    let marked = some.map_values(
        |argument: Seq<u8>|
            match strip {
                Some(root) => replaced(argument, root, encode_utf8("<ROOT>"@)),
                None => argument,
            },
    );
    if count > 0 {
        lemma_marked_arguments(arguments, strip, count - 1);
        assert(marked.drop_last() =~= arguments.take(count - 1).map_values(
            |argument: Seq<u8>|
                match strip {
                    Some(root) => replaced(argument, root, encode_utf8("<ROOT>"@)),
                    None => argument,
                },
        ));
    }
}

/// A cache key is made of the program, of every argument with the build directory marked, and of
/// both kinds of flags.
pub proof fn law_cache_keys_cover_the_invocation(
    program: Seq<u8>,
    forwarded: Seq<Seq<u8>>,
    strip: Option<Seq<u8>>,
    encoded_rustflags: Option<Seq<u8>>,
    rustflags: Option<Seq<u8>>,
)
    ensures
        key_values(program, forwarded, strip, encoded_rustflags, rustflags) == seq![program]
            + marked_arguments(forwarded, strip) + seq![
            if encoded_rustflags is Some {
                encoded_rustflags->0
            } else {
                Seq::empty()
            },
            if rustflags is Some {
                rustflags->0
            } else {
                Seq::empty()
            },
        ],
{
    lemma_marked_arguments(forwarded, strip, forwarded.len() as int);
    assert(forwarded.take(forwarded.len() as int) =~= forwarded);
}

} // verus!
