//! The experiment shim: it stands in for the compiler, records one invocation, and goes on to
//! the real compiler. Its protocol lives in the environment alone.

use vstd::prelude::*;
use vstd::string::*;
use vstd::utf8::*;

use crate::hash::{encode_texts, encoded, frame, framed_digest, sha256_hex, sha256_text};
use crate::json::{
    bool_literal, displayed_texts, hex_texts, json_array, json_bool, json_optional, json_string,
    push_display_array, push_hex_array, push_json_string, push_optional_string, push_string_array,
};
use crate::paths::{is_absolute, is_absolute_path};
use crate::text::{
    after_prefix, byte_strings, characters, copy_byte_strings, decimal, decimal_text, decoded,
    encoded_text, has_prefix, lossy, lossy_text, optional_bytes, optional_text, same_bytes,
    same_text, strip_text, suffix, text2, text4, text_after, text_between, texts,
};

verus! {

pub const PROTOCOL: &'static str = "temper-exp-shim-1";

pub const PROTOCOL_FAILURE_EXIT: i32 = 97;

pub const MISSING_FUNCTION_WARNING: &'static str = "-Cllvm-args=-pgo-warn-missing-function";

/// How many names a record is tried under.
pub const CAPTURE_NAME_LIMIT: u32 = 64;

/// What an invocation of the compiler is for.
#[derive(Clone, Copy, Debug, PartialEq, Eq, Structural)]
pub enum Class {
    TargetCompile,
    HostCompile,
    Probe,
    Other,
}

/// The label of a class.
pub open spec fn class_label(class: Class) -> Seq<char> {
    match class {
        Class::TargetCompile => "target_compile"@,
        Class::HostCompile => "host_compile"@,
        Class::Probe => "probe"@,
        Class::Other => "other"@,
    }
}

impl Class {
    /// The label of the class.
    pub fn label(self) -> (label: &'static str)
        ensures
            label@ == class_label(self),
    {
        match self {
            Class::TargetCompile => "target_compile",
            Class::HostCompile => "host_compile",
            Class::Probe => "probe",
            Class::Other => "other",
        }
    }
}

/// The readable rest of an argument behind a prefix.
pub open spec fn readable_after(argument: Seq<u8>, prefix: Seq<char>) -> Option<Seq<char>> {
    match after_prefix(argument, encode_utf8(prefix)) {
        Some(rest) => encoded_text(rest),
        None => None,
    }
}

/// The readable form of the argument that follows.
pub open spec fn readable_next(next: Option<Seq<u8>>) -> Option<Seq<char>> {
    match next {
        Some(value) => encoded_text(value),
        None => None,
    }
}

/// The value of a codegen option, given in one argument or in two.
pub open spec fn codegen_text(
    argument: Seq<u8>,
    next: Option<Seq<u8>>,
    key: Seq<char>,
) -> Option<Seq<char>> {
    let option = if argument == encode_utf8("-C"@) {
        readable_next(next)
    } else {
        readable_after(argument, "-C"@)
    };
    match option {
        Some(value) => text_after(value, key),
        None => None,
    }
}

/// What the arguments of an invocation say.
#[verifier::ext_equal]
pub ghost struct SignsView {
    pub exact_target: bool,
    pub emit: bool,
    pub print: bool,
    pub crate_name: Option<Seq<char>>,
    pub crate_types: Seq<Seq<char>>,
    pub metadata: Option<Seq<char>>,
    pub extra_filename: Option<Seq<char>>,
    pub out_dir: Option<Seq<char>>,
}

/// What no arguments say.
pub open spec fn no_signs() -> SignsView {
    SignsView {
        exact_target: false,
        emit: false,
        print: false,
        crate_name: None,
        crate_types: Seq::empty(),
        metadata: None,
        extra_filename: None,
        out_dir: None,
    }
}

/// Whether an argument is a flag, alone or with its value behind an equals sign.
pub open spec fn is_flag(argument: Seq<u8>, flag: Seq<char>, assigned: Seq<char>) -> bool {
    argument == encode_utf8(flag) || encode_utf8(assigned).is_prefix_of(argument)
}

/// What is known once an argument, and the one that follows it, were read.
pub open spec fn signs_with(
    signs: SignsView,
    argument: Seq<u8>,
    next: Option<Seq<u8>>,
    target: Seq<char>,
) -> SignsView {
    if argument == encode_utf8("--target"@) {
        SignsView {
            exact_target: signs.exact_target || next == Some(encode_utf8(target)),
            ..signs
        }
    } else if readable_after(argument, "--target="@) is Some {
        SignsView {
            exact_target: signs.exact_target || readable_after(argument, "--target="@) == Some(
                target,
            ),
            ..signs
        }
    } else if is_flag(argument, "--emit"@, "--emit="@) {
        SignsView { emit: true, ..signs }
    } else if is_flag(argument, "--print"@, "--print="@) {
        SignsView { print: true, ..signs }
    } else if argument == encode_utf8("--crate-name"@) {
        SignsView { crate_name: readable_next(next), ..signs }
    } else if readable_after(argument, "--crate-name="@) is Some {
        SignsView { crate_name: readable_after(argument, "--crate-name="@), ..signs }
    } else if argument == encode_utf8("--crate-type"@) {
        match readable_next(next) {
            Some(value) => SignsView { crate_types: signs.crate_types.push(value), ..signs },
            None => signs,
        }
    } else if readable_after(argument, "--crate-type="@) is Some {
        SignsView {
            crate_types: signs.crate_types.push(readable_after(argument, "--crate-type="@)->0),
            ..signs
        }
    } else if argument == encode_utf8("--out-dir"@) {
        SignsView { out_dir: readable_next(next), ..signs }
    } else if readable_after(argument, "--out-dir="@) is Some {
        SignsView { out_dir: readable_after(argument, "--out-dir="@), ..signs }
    } else if codegen_text(argument, next, "metadata="@) is Some {
        SignsView { metadata: codegen_text(argument, next, "metadata="@), ..signs }
    } else if codegen_text(argument, next, "extra-filename="@) is Some {
        SignsView { extra_filename: codegen_text(argument, next, "extra-filename="@), ..signs }
    } else {
        signs
    }
}

/// The argument that follows the one at `index`.
pub open spec fn following(arguments: Seq<Seq<u8>>, index: int) -> Option<Seq<u8>> {
    if index + 1 < arguments.len() {
        Some(arguments[index + 1])
    } else {
        None
    }
}

/// What the first `count` arguments say.
pub open spec fn signs_among(
    arguments: Seq<Seq<u8>>,
    target: Seq<char>,
    count: int,
) -> SignsView
    decreases count,
{
    if count <= 0 {
        no_signs()
    } else {
        signs_with(
            signs_among(arguments, target, count - 1),
            arguments[count - 1],
            following(arguments, count - 1),
            target,
        )
    }
}

/// The class of an invocation: a probe prints, and a compilation emits, for the target or the
/// host.
pub open spec fn class_of(signs: SignsView) -> Class {
    if signs.print {
        Class::Probe
    } else if signs.exact_target && signs.emit {
        Class::TargetCompile
    } else if signs.emit {
        Class::HostCompile
    } else {
        Class::Other
    }
}

/// What one invocation of the compiler is.
#[derive(Debug)]
pub struct Classification {
    pub class: Class,
    pub exact_target: bool,
    pub emit: bool,
    pub print: bool,
    pub crate_name: Option<String>,
    pub crate_types: Vec<String>,
    pub metadata: Option<String>,
    pub extra_filename: Option<String>,
    pub out_dir: Option<String>,
}

impl Classification {
    /// What the arguments said.
    pub open spec fn signs(self) -> SignsView {
        SignsView {
            exact_target: self.exact_target,
            emit: self.emit,
            print: self.print,
            crate_name: optional_text(self.crate_name),
            crate_types: texts(self.crate_types@),
            metadata: optional_text(self.metadata),
            extra_filename: optional_text(self.extra_filename),
            out_dir: optional_text(self.out_dir),
        }
    }

    /// Notes one argument, and the one that follows it.
    fn note(&mut self, argument: &[u8], next: Option<&[u8]>, target: &str)
        ensures
            final(self).signs() == signs_with(
                old(self).signs(),
                argument@,
                match next {
                    Some(value) => Some(value@),
                    None => None,
                },
                target@,
            ),
    {
        let ghost before = self.signs();
        if same_bytes(argument, "--target".as_bytes()) {
            if let Some(value) = next {
                if same_bytes(value, target.as_bytes()) {
                    self.exact_target = true;
                }
            }
            return;
        }
        if let Some(value) = readable_suffix(argument, "--target=") {
            if same_text(value.as_str(), target) {
                self.exact_target = true;
            }
            return;
        }
        if same_bytes(argument, "--emit".as_bytes()) || has_prefix(
            argument,
            "--emit=".as_bytes(),
        ) {
            self.emit = true;
            return;
        }
        if same_bytes(argument, "--print".as_bytes()) || has_prefix(
            argument,
            "--print=".as_bytes(),
        ) {
            self.print = true;
            return;
        }
        if same_bytes(argument, "--crate-name".as_bytes()) {
            self.crate_name = lossless_next(next);
            return;
        }
        if let Some(value) = readable_suffix(argument, "--crate-name=") {
            self.crate_name = Some(value);
            return;
        }
        if same_bytes(argument, "--crate-type".as_bytes()) {
            if let Some(value) = lossless_next(next) {
                self.crate_types.push(value);
                assert(texts(self.crate_types@) =~= before.crate_types.push(value@));
            }
            return;
        }
        if let Some(value) = readable_suffix(argument, "--crate-type=") {
            self.crate_types.push(value);
            assert(texts(self.crate_types@) =~= before.crate_types.push(value@));
            return;
        }
        if same_bytes(argument, "--out-dir".as_bytes()) {
            self.out_dir = lossless_next(next);
            return;
        }
        if let Some(value) = readable_suffix(argument, "--out-dir=") {
            self.out_dir = Some(value);
            return;
        }
        if let Some(value) = codegen_option(argument, next, "metadata=") {
            self.metadata = Some(value);
            return;
        }
        if let Some(value) = codegen_option(argument, next, "extra-filename=") {
            self.extra_filename = Some(value);
        }
    }
}

fn readable_suffix(argument: &[u8], prefix: &str) -> (value: Option<String>)
    ensures
        optional_text(value) == readable_after(argument@, prefix@),
{
    match suffix(argument, prefix) {
        Some(rest) => decoded(rest),
        None => None,
    }
}

fn lossless_next(next: Option<&[u8]>) -> (value: Option<String>)
    ensures
        optional_text(value) == readable_next(
            match next {
                Some(value) => Some(value@),
                None => None,
            },
        ),
{
    match next {
        Some(value) => decoded(value),
        None => None,
    }
}

/// The value of a codegen option, given in one argument or in two.
pub fn codegen_option(argument: &[u8], next: Option<&[u8]>, key: &str) -> (value: Option<String>)
    ensures
        optional_text(value) == codegen_text(
            argument@,
            match next {
                Some(value) => Some(value@),
                None => None,
            },
            key@,
        ),
{
    let option = if same_bytes(argument, "-C".as_bytes()) {
        lossless_next(next)
    } else {
        readable_suffix(argument, "-C")
    };
    match option {
        Some(text) => strip_text(text.as_str(), key),
        None => None,
    }
}

/// Classifies one invocation of the compiler.
pub fn classify(arguments: &Vec<Vec<u8>>, target: &str) -> (classification: Classification)
    ensures
        classification.signs() == signs_among(
            byte_strings(arguments@),
            target@,
            arguments@.len() as int,
        ),
        classification.class == class_of(classification.signs()),
{
    let mut classification = Classification {
        class: Class::Other,
        exact_target: false,
        emit: false,
        print: false,
        crate_name: None,
        crate_types: Vec::new(),
        metadata: None,
        extra_filename: None,
        out_dir: None,
    };
    let ghost views = byte_strings(arguments@);
    let total: usize = arguments.len();
    let mut index: usize = 0;
    assert(texts(classification.crate_types@) =~= Seq::empty());
    while index < total
        invariant
            index <= total == arguments@.len(),
            views == byte_strings(arguments@),
            classification.signs() == signs_among(views, target@, index as int),
        decreases total - index,
    {
        let next: Option<&[u8]> = if total - index > 1 {
            Some(arguments[index + 1].as_slice())
        } else {
            None
        };
        classification.note(arguments[index].as_slice(), next, target);
        index = index + 1;
    }
    classification.class =
    if classification.print {
        Class::Probe
    } else if classification.exact_target && classification.emit {
        Class::TargetCompile
    } else if classification.emit {
        Class::HostCompile
    } else {
        Class::Other
    };
    classification
}

/// A profiling control that target compilations receive.
#[derive(Debug)]
pub enum Injection {
    Nothing,
    Generate(String),
    Use(String),
}

/// The mathematical value of an injection.
pub ghost enum InjectionMode {
    Nothing,
    Generate(Seq<char>),
    Use(Seq<char>),
}

impl View for Injection {
    type V = InjectionMode;

    open spec fn view(&self) -> InjectionMode {
        match *self {
            Injection::Nothing => InjectionMode::Nothing,
            Injection::Generate(path) => InjectionMode::Generate(path@),
            Injection::Use(path) => InjectionMode::Use(path@),
        }
    }
}

/// The refusal of a profile path that is not absolute.
pub open spec fn absolute_or(path: Seq<char>, mode: InjectionMode) -> Result<
    InjectionMode,
    Seq<char>,
> {
    if is_absolute_path(encode_utf8(path)) {
        Ok(mode)
    } else {
        Err("TEMPER_EXP_INJECT requires an absolute profile path"@)
    }
}

/// What the injection variable asks for. A value that is not text counts as none.
pub open spec fn asked_injection(value: Option<Seq<u8>>) -> Result<InjectionMode, Seq<char>> {
    match readable_next(value) {
        None => Ok(InjectionMode::Nothing),
        Some(text) => if text.len() == 0 || text == "none"@ {
            Ok(InjectionMode::Nothing)
        } else {
            match (text_after(text, "generate="@), text_after(text, "use="@)) {
                (Some(path), _) => absolute_or(path, InjectionMode::Generate(path)),
                (None, Some(path)) => absolute_or(path, InjectionMode::Use(path)),
                (None, None) => Err(
                    "TEMPER_EXP_INJECT must be none, generate=<abs> or use=<abs>"@,
                ),
            }
        },
    }
}

fn readable_value(value: &Option<Vec<u8>>) -> (text: Option<String>)
    ensures
        optional_text(text) == readable_next(optional_bytes(*value)),
{
    match value {
        Some(bytes) => decoded(bytes.as_slice()),
        None => None,
    }
}

fn is_empty_text(text: &str) -> (empty: bool)
    ensures
        empty == (text@.len() == 0),
{
    characters(text).len() == 0
}

/// Reads the injection variable.
pub fn injection_mode(value: &Option<Vec<u8>>) -> (mode: Result<Injection, String>)
    ensures
        match mode {
            Ok(injection) => asked_injection(optional_bytes(*value)) == Ok::<
                InjectionMode,
                Seq<char>,
            >(injection@),
            Err(message) => asked_injection(optional_bytes(*value)) == Err::<
                InjectionMode,
                Seq<char>,
            >(message@),
        },
{
    let text = match readable_value(value) {
        None => return Ok(Injection::Nothing),
        Some(text) => text,
    };
    if is_empty_text(text.as_str()) || same_text(text.as_str(), "none") {
        return Ok(Injection::Nothing);
    }
    if let Some(path) = strip_text(text.as_str(), "generate=") {
        if is_absolute(path.as_str().as_bytes()) {
            return Ok(Injection::Generate(path));
        }
        return Err("TEMPER_EXP_INJECT requires an absolute profile path".to_owned());
    }
    if let Some(path) = strip_text(text.as_str(), "use=") {
        if is_absolute(path.as_str().as_bytes()) {
            return Ok(Injection::Use(path));
        }
        return Err("TEMPER_EXP_INJECT requires an absolute profile path".to_owned());
    }
    Err("TEMPER_EXP_INJECT must be none, generate=<abs> or use=<abs>".to_owned())
}

/// The controls that an invocation receives: only target compilations receive any.
pub open spec fn injected_controls(mode: InjectionMode, class: Class) -> Seq<Seq<char>> {
    if class != Class::TargetCompile {
        Seq::empty()
    } else {
        match mode {
            InjectionMode::Nothing => Seq::empty(),
            InjectionMode::Generate(path) => seq!["-Cprofile-generate="@ + path],
            InjectionMode::Use(path) => seq![
                "-Cprofile-use="@ + path,
                MISSING_FUNCTION_WARNING@,
            ],
        }
    }
}

/// The controls that an invocation receives.
pub fn injected_flags(injection: &Injection, class: Class) -> (flags: Vec<String>)
    ensures
        texts(flags@) == injected_controls(injection@, class),
{
    let mut flags: Vec<String> = Vec::new();
    if class == Class::TargetCompile {
        match injection {
            Injection::Nothing => {},
            Injection::Generate(path) => {
                flags.push(text2("-Cprofile-generate=", path.as_str()));
            },
            Injection::Use(path) => {
                flags.push(text2("-Cprofile-use=", path.as_str()));
                flags.push(MISSING_FUNCTION_WARNING.to_owned());
            },
        }
    }
    assert(texts(flags@) =~= injected_controls(injection@, class));
    flags
}

/// The values of the private protocol.
#[derive(Debug)]
pub struct ShimValues {
    pub real_rustc: Option<Vec<u8>>,
    pub capture_directory: Option<Vec<u8>>,
    pub stage: Option<Vec<u8>>,
    pub target: Option<Vec<u8>>,
    pub injection: Option<Vec<u8>>,
}

/// What the shim was asked to do.
#[derive(Debug)]
pub struct ShimRequest {
    pub real_rustc: Vec<u8>,
    pub capture_directory: Vec<u8>,
    pub stage: String,
    pub target: String,
    pub injection: Injection,
}

/// The mathematical value of a request.
#[verifier::ext_equal]
pub ghost struct RequestView {
    pub real_rustc: Seq<u8>,
    pub capture_directory: Seq<u8>,
    pub stage: Seq<char>,
    pub target: Seq<char>,
    pub injection: InjectionMode,
}

impl View for ShimRequest {
    type V = RequestView;

    open spec fn view(&self) -> RequestView {
        RequestView {
            real_rustc: self.real_rustc@,
            capture_directory: self.capture_directory@,
            stage: self.stage@,
            target: self.target@,
            injection: self.injection@,
        }
    }
}

/// A protocol path, which must be given and not empty.
pub open spec fn given_path(value: Option<Seq<u8>>) -> Option<Seq<u8>> {
    match value {
        Some(path) if path.len() > 0 => Some(path),
        _ => None,
    }
}

/// A protocol text, which must be given, readable and not empty.
pub open spec fn given_text(value: Option<Seq<u8>>) -> Option<Seq<char>> {
    match readable_next(value) {
        Some(text) if text.len() > 0 => Some(text),
        _ => None,
    }
}

/// The refusal of a missing protocol value.
pub open spec fn missing_value(name: Seq<char>) -> Seq<char> {
    "missing private protocol value "@ + name
}

/// What the protocol values ask for, or the first thing that is wrong with them.
pub open spec fn requested(values: ShimValues, is_directory: bool) -> Result<
    RequestView,
    Seq<char>,
> {
    match (
        given_path(optional_bytes(values.real_rustc)),
        given_path(optional_bytes(values.capture_directory)),
        given_text(optional_bytes(values.stage)),
        given_text(optional_bytes(values.target)),
        asked_injection(optional_bytes(values.injection)),
    ) {
        (None, _, _, _, _) => Err(missing_value("TEMPER_EXP_REAL_RUSTC"@)),
        (_, None, _, _, _) => Err(missing_value("TEMPER_EXP_CAPTURE_DIR"@)),
        (_, _, None, _, _) => Err(missing_value("TEMPER_EXP_STAGE"@)),
        (_, _, _, None, _) => Err(missing_value("TEMPER_EXP_TARGET"@)),
        (_, _, _, _, Err(message)) => Err(message),
        (
            Some(real_rustc),
            Some(capture_directory),
            Some(stage),
            Some(target),
            Ok(injection),
        ) => if !is_absolute_path(real_rustc) {
            Err("TEMPER_EXP_REAL_RUSTC must be an absolute path"@)
        } else if !is_directory {
            Err("TEMPER_EXP_CAPTURE_DIR must be an existing directory"@)
        } else {
            Ok(RequestView { real_rustc, capture_directory, stage, target, injection })
        },
    }
}

/// A protocol path, which must be given and not empty.
pub fn required_path(name: &str, value: &Option<Vec<u8>>) -> (path: Result<Vec<u8>, String>)
    ensures
        match path {
            Ok(path) => given_path(optional_bytes(*value)) == Some(path@),
            Err(message) => given_path(optional_bytes(*value)) is None && message@
                == missing_value(name@),
        },
{
    if let Some(path) = value {
        if path.len() > 0 {
            return Ok(path.clone());
        }
    }
    Err(text2("missing private protocol value ", name))
}

/// A protocol text, which must be given, readable and not empty.
pub fn required_string(name: &str, value: &Option<Vec<u8>>) -> (text: Result<String, String>)
    ensures
        match text {
            Ok(text) => given_text(optional_bytes(*value)) == Some(text@),
            Err(message) => given_text(optional_bytes(*value)) is None && message@
                == missing_value(name@),
        },
{
    if let Some(text) = readable_value(value) {
        if !is_empty_text(text.as_str()) {
            return Ok(text);
        }
    }
    Err(text2("missing private protocol value ", name))
}

/// Reads the protocol values. `is_directory` tells whether the capture directory is one.
pub fn read_request(values: &ShimValues, is_directory: bool) -> (request: Result<
    ShimRequest,
    String,
>)
    ensures
        match request {
            Ok(request) => requested(*values, is_directory) == Ok::<RequestView, Seq<char>>(
                request@,
            ),
            Err(message) => requested(*values, is_directory) == Err::<RequestView, Seq<char>>(
                message@,
            ),
        },
{
    let real_rustc = match required_path("TEMPER_EXP_REAL_RUSTC", &values.real_rustc) {
        Ok(path) => path,
        Err(message) => return Err(message),
    };
    let capture_directory = match required_path(
        "TEMPER_EXP_CAPTURE_DIR",
        &values.capture_directory,
    ) {
        Ok(path) => path,
        Err(message) => return Err(message),
    };
    let stage = match required_string("TEMPER_EXP_STAGE", &values.stage) {
        Ok(text) => text,
        Err(message) => return Err(message),
    };
    let target = match required_string("TEMPER_EXP_TARGET", &values.target) {
        Ok(text) => text,
        Err(message) => return Err(message),
    };
    let injection = match injection_mode(&values.injection) {
        Ok(injection) => injection,
        Err(message) => return Err(message),
    };
    if !is_absolute(real_rustc.as_slice()) {
        return Err("TEMPER_EXP_REAL_RUSTC must be an absolute path".to_owned());
    }
    if !is_directory {
        return Err("TEMPER_EXP_CAPTURE_DIR must be an existing directory".to_owned());
    }
    Ok(ShimRequest { real_rustc, capture_directory, stage, target, injection })
}

/// The environment variables whose digests a record keeps.
#[derive(Debug)]
pub struct ObservedEnvironment {
    pub cargo_encoded_rustflags: Option<Vec<u8>>,
    pub rustflags: Option<Vec<u8>>,
    pub cargo_build_rustflags: Option<Vec<u8>>,
    pub cargo_primary_package: Option<Vec<u8>>,
    pub rustc_wrapper: Option<Vec<u8>>,
    pub rustc_workspace_wrapper: Option<Vec<u8>>,
}

/// The JSON value of an observed variable.
pub open spec fn json_variable(value: Option<Seq<u8>>) -> Seq<char> {
    match value {
        Some(bytes) => "{\"present\":true,\"digest\":"@ + json_string(sha256_text(bytes))
            + ",\"empty\":"@ + json_bool(bytes.len() == 0) + "}"@,
        None => "{\"present\":false}"@,
    }
}

fn push_variable(json: &mut String, value: &Option<Vec<u8>>)
    ensures
        final(json)@ == old(json)@ + json_variable(optional_bytes(*value)),
{
    let ghost start = json@;
    match value {
        Some(bytes) => {
            let digest = sha256_hex(bytes.as_slice());
            json.append("{\"present\":true,\"digest\":");
            push_json_string(json, digest.as_str());
            json.append(",\"empty\":");
            json.append(bool_literal(bytes.len() == 0));
            json.append("}");
        },
        None => json.append("{\"present\":false}"),
    }
    assert(json@ =~= start + json_variable(optional_bytes(*value)));
}

/// The JSON object of the observed variables.
pub open spec fn json_environment(environment: ObservedEnvironment) -> Seq<char> {
    "{\"CARGO_ENCODED_RUSTFLAGS\":"@ + json_variable(
        optional_bytes(environment.cargo_encoded_rustflags),
    ) + ",\"RUSTFLAGS\":"@ + json_variable(optional_bytes(environment.rustflags))
        + ",\"CARGO_BUILD_RUSTFLAGS\":"@ + json_variable(
        optional_bytes(environment.cargo_build_rustflags),
    ) + ",\"CARGO_PRIMARY_PACKAGE\":"@ + json_variable(
        optional_bytes(environment.cargo_primary_package),
    ) + ",\"RUSTC_WRAPPER\":"@ + json_variable(optional_bytes(environment.rustc_wrapper))
        + ",\"RUSTC_WORKSPACE_WRAPPER\":"@ + json_variable(
        optional_bytes(environment.rustc_workspace_wrapper),
    ) + "}"@
}

fn environment_text(environment: &ObservedEnvironment) -> (json: String)
    ensures
        json@ == json_environment(*environment),
{
    let mut json = "{\"CARGO_ENCODED_RUSTFLAGS\":".to_owned();
    push_variable(&mut json, &environment.cargo_encoded_rustflags);
    json.append(",\"RUSTFLAGS\":");
    push_variable(&mut json, &environment.rustflags);
    json.append(",\"CARGO_BUILD_RUSTFLAGS\":");
    push_variable(&mut json, &environment.cargo_build_rustflags);
    json.append(",\"CARGO_PRIMARY_PACKAGE\":");
    push_variable(&mut json, &environment.cargo_primary_package);
    json.append(",\"RUSTC_WRAPPER\":");
    push_variable(&mut json, &environment.rustc_wrapper);
    json.append(",\"RUSTC_WORKSPACE_WRAPPER\":");
    push_variable(&mut json, &environment.rustc_workspace_wrapper);
    json.append("}");
    json
}

/// One recorded invocation.
#[derive(Debug)]
pub struct Record {
    pub stage: String,
    pub target: String,
    pub real_rustc: Vec<u8>,
    /// The working directory; empty where it is not known.
    pub directory: Vec<u8>,
    pub process: u32,
    pub arguments: Vec<Vec<u8>>,
    pub final_arguments: Vec<Vec<u8>>,
    pub classification: Classification,
    pub injected: Vec<String>,
    pub environment: ObservedEnvironment,
}

/// Who made a record, as JSON.
pub open spec fn record_origin(record: Record) -> Seq<char> {
    "{\"protocol\":"@ + json_string(PROTOCOL@) + ",\"stage\":"@ + json_string(record.stage@)
        + ",\"target\":"@ + json_string(record.target@) + ",\"real_rustc\":"@ + json_string(
        lossy_text(record.real_rustc@),
    ) + ",\"cwd\":"@ + json_string(lossy_text(record.directory@)) + ",\"pid\":"@ + decimal_text(
        record.process as nat,
    )
}

/// How an invocation was classified, as JSON.
pub open spec fn record_signs(classification: Classification) -> Seq<char> {
    ",\"class\":"@ + json_string(class_label(classification.class)) + ",\"exact_target\":"@
        + json_bool(classification.exact_target) + ",\"emit\":"@ + json_bool(classification.emit)
        + ",\"print\":"@ + json_bool(classification.print) + ",\"crate_name\":"@ + json_optional(
        optional_text(classification.crate_name),
    ) + ",\"crate_types\":"@ + json_array(texts(classification.crate_types@)) + ",\"metadata\":"@
        + json_optional(optional_text(classification.metadata)) + ",\"extra_filename\":"@
        + json_optional(optional_text(classification.extra_filename)) + ",\"out_dir\":"@
        + json_optional(optional_text(classification.out_dir))
}

/// What an invocation was given and passed on, as JSON.
pub open spec fn record_arguments(record: Record) -> Seq<char> {
    ",\"injected\":"@ + json_array(texts(record.injected@)) + ",\"pre_digest\":"@ + json_string(
        sha256_text(frame(byte_strings(record.arguments@))),
    ) + ",\"post_digest\":"@ + json_string(
        sha256_text(frame(byte_strings(record.final_arguments@))),
    ) + ",\"argv_hex\":"@ + json_array(hex_texts(byte_strings(record.arguments@)))
        + ",\"argv_display\":"@ + json_array(displayed_texts(byte_strings(record.arguments@)))
}

/// A record as one line of JSON.
pub open spec fn record_line(record: Record) -> Seq<char> {
    record_origin(record) + record_signs(record.classification) + record_arguments(record)
        + ",\"environment\":"@ + json_environment(record.environment) + "}\n"@
}

fn origin_text(record: &Record) -> (json: String)
    ensures
        json@ == record_origin(*record),
{
    let mut json = "{\"protocol\":".to_owned();
    push_json_string(&mut json, PROTOCOL);
    json.append(",\"stage\":");
    push_json_string(&mut json, record.stage.as_str());
    json.append(",\"target\":");
    push_json_string(&mut json, record.target.as_str());
    json.append(",\"real_rustc\":");
    push_json_string(&mut json, lossy(record.real_rustc.as_slice()).as_str());
    json.append(",\"cwd\":");
    push_json_string(&mut json, lossy(record.directory.as_slice()).as_str());
    json.append(",\"pid\":");
    json.append(decimal(record.process as u64).as_str());
    json
}

fn signs_text(classification: &Classification) -> (json: String)
    ensures
        json@ == record_signs(*classification),
{
    let mut json = ",\"class\":".to_owned();
    push_json_string(&mut json, classification.class.label());
    json.append(",\"exact_target\":");
    json.append(bool_literal(classification.exact_target));
    json.append(",\"emit\":");
    json.append(bool_literal(classification.emit));
    json.append(",\"print\":");
    json.append(bool_literal(classification.print));
    json.append(",\"crate_name\":");
    push_optional_string(&mut json, &classification.crate_name);
    json.append(",\"crate_types\":");
    push_string_array(&mut json, &classification.crate_types);
    json.append(",\"metadata\":");
    push_optional_string(&mut json, &classification.metadata);
    json.append(",\"extra_filename\":");
    push_optional_string(&mut json, &classification.extra_filename);
    json.append(",\"out_dir\":");
    push_optional_string(&mut json, &classification.out_dir);
    json
}

fn arguments_text(record: &Record) -> (json: String)
    ensures
        json@ == record_arguments(*record),
{
    let mut json = ",\"injected\":".to_owned();
    push_string_array(&mut json, &record.injected);
    json.append(",\"pre_digest\":");
    push_json_string(&mut json, framed_digest(&record.arguments).as_str());
    json.append(",\"post_digest\":");
    push_json_string(&mut json, framed_digest(&record.final_arguments).as_str());
    json.append(",\"argv_hex\":");
    push_hex_array(&mut json, &record.arguments);
    json.append(",\"argv_display\":");
    push_display_array(&mut json, &record.arguments);
    json
}

/// Writes a record as one line of JSON.
pub fn record_json(record: &Record) -> (json: String)
    ensures
        json@ == record_line(*record),
{
    let mut json = origin_text(record);
    json.append(signs_text(&record.classification).as_str());
    json.append(arguments_text(record).as_str());
    json.append(",\"environment\":");
    json.append(environment_text(&record.environment).as_str());
    json.append("}\n");
    json
}

/// A number below a hundred in two digits.
pub open spec fn two_digits(value: nat) -> Seq<char> {
    if value < 10 {
        "0"@ + decimal_text(value)
    } else {
        decimal_text(value)
    }
}

/// The file name of one attempt to store a record.
pub open spec fn capture_file_name(json: Seq<char>, attempt: nat) -> Seq<char> {
    sha256_text(encode_utf8(json)).take(32) + "-"@ + two_digits(attempt) + ".json"@
}

/// The file name of one attempt to store a record.
pub fn capture_name(json: &str, attempt: u32) -> (name: String)
    ensures
        name@ == capture_file_name(json@, attempt as nat),
{
    let identity = characters(sha256_hex(json.as_bytes()).as_str());
    let short = text_between(identity.as_slice(), 0, 32);
    assert(short@ =~= sha256_text(encode_utf8(json@)).take(32));
    let number = decimal(attempt as u64);
    let padded = if attempt < 10 {
        text2("0", number.as_str())
    } else {
        number
    };
    text4(short.as_str(), "-", padded.as_str(), ".json")
}

/// What storing a record under one name gave.
#[derive(Clone, Copy, Debug, PartialEq, Eq, Structural)]
pub enum StoreOutcome {
    Written,
    NotWritten,
    AlreadyExists,
    NotCreated,
}

/// What follows one attempt to store a record.
#[derive(Debug)]
pub enum StoreStep {
    Done,
    Retry(u32),
    Failure(&'static str),
}

/// Decides what follows one attempt to store a record: only an existing name is tried again,
/// and only so often.
pub fn write_record(attempt: u32, outcome: StoreOutcome) -> (step: StoreStep)
    ensures
        match outcome {
            StoreOutcome::Written => step is Done,
            StoreOutcome::NotWritten => step matches StoreStep::Failure(message) && message@
                == "could not write the shim capture record"@,
            StoreOutcome::NotCreated => step matches StoreStep::Failure(message) && message@
                == "could not create the shim capture record"@,
            StoreOutcome::AlreadyExists => if attempt + 1 < CAPTURE_NAME_LIMIT {
                step matches StoreStep::Retry(next) && next == attempt + 1
            } else {
                step matches StoreStep::Failure(message) && message@
                    == "exhausted the bounded capture-name retry policy"@
            },
        },
{
    match outcome {
        StoreOutcome::Written => StoreStep::Done,
        StoreOutcome::NotWritten => StoreStep::Failure("could not write the shim capture record"),
        StoreOutcome::NotCreated => StoreStep::Failure("could not create the shim capture record"),
        StoreOutcome::AlreadyExists => if attempt < CAPTURE_NAME_LIMIT - 1 {
            StoreStep::Retry(attempt + 1)
        } else {
            StoreStep::Failure("exhausted the bounded capture-name retry policy")
        },
    }
}

/// The line that a protocol failure is reported with.
pub fn protocol_failure(message: &str) -> (line: String)
    ensures
        line@ == "temper shim protocol failure ("@ + PROTOCOL@ + "): "@ + message@,
{
    text4("temper shim protocol failure (", PROTOCOL, "): ", message)
}

/// The failure to go on to the real compiler.
pub fn replacement_failure(real_rustc: &[u8], error: &str) -> (message: String)
    ensures
        message@ == "could not replace the shim with "@ + lossy_text(real_rustc@) + ": "@ + error@,
{
    text4("could not replace the shim with ", lossy(real_rustc).as_str(), ": ", error)
}

/// The arguments that the real compiler receives: those given, and the controls behind them.
pub open spec fn final_arguments_of(
    arguments: Seq<Seq<u8>>,
    controls: Seq<Seq<char>>,
) -> Seq<Seq<u8>> {
    arguments + encoded(controls)
}

/// What the shim records and passes on for one invocation.
pub fn plan_invocation(
    request: &ShimRequest,
    arguments: &Vec<Vec<u8>>,
    directory: Vec<u8>,
    process: u32,
    environment: ObservedEnvironment,
) -> (record: Record)
    ensures
        record.stage@ == request.stage@,
        record.target@ == request.target@,
        record.real_rustc@ == request.real_rustc@,
        record.directory == directory,
        record.process == process,
        record.environment == environment,
        byte_strings(record.arguments@) == byte_strings(arguments@),
        record.classification.signs() == signs_among(
            byte_strings(arguments@),
            request.target@,
            arguments@.len() as int,
        ),
        record.classification.class == class_of(record.classification.signs()),
        texts(record.injected@) == injected_controls(
            request.injection@,
            record.classification.class,
        ),
        byte_strings(record.final_arguments@) == final_arguments_of(
            byte_strings(arguments@),
            injected_controls(request.injection@, record.classification.class),
        ),
{
    let classification = classify(arguments, request.target.as_str());
    let injected = injected_flags(&request.injection, classification.class);
    let mut final_arguments = copy_byte_strings(arguments);
    let mut added = encode_texts(&injected);
    let ghost first = final_arguments@;
    let ghost second = added@;
    final_arguments.append(&mut added);
    proof {
        assert(byte_strings(first + second) =~= byte_strings(first) + byte_strings(second));
    }
    Record {
        stage: request.stage.clone(),
        target: request.target.clone(),
        real_rustc: request.real_rustc.clone(),
        directory,
        process,
        arguments: copy_byte_strings(arguments),
        final_arguments,
        classification,
        injected,
        environment,
    }
}

/// The compiler receives the arguments of every invocation as they were given; only target
/// compilations receive more behind them.
pub proof fn law_arguments_pass_through(
    arguments: Seq<Seq<u8>>,
    mode: InjectionMode,
    class: Class,
)
    ensures
        arguments.is_prefix_of(final_arguments_of(arguments, injected_controls(mode, class))),
        class != Class::TargetCompile ==> final_arguments_of(
            arguments,
            injected_controls(mode, class),
        ) == arguments,
{
    let passed = final_arguments_of(arguments, injected_controls(mode, class));
    assert(arguments =~= passed.take(arguments.len() as int));
    if class != Class::TargetCompile {
        assert(passed =~= arguments);
    }
}

/// How the stand-in compiler behaves.
#[derive(Clone, Copy, Debug, PartialEq, Eq, Structural)]
pub enum StandInMode {
    /// Copies its input to its output.
    Echo,
    /// Exits with code 42.
    Exit,
    Abort,
}

/// Reads how the stand-in compiler is to behave.
pub fn stand_in_mode(value: &Option<Vec<u8>>) -> (mode: StandInMode)
    ensures
        mode == if readable_next(optional_bytes(*value)) == Some("exit42"@) {
            StandInMode::Exit
        } else if readable_next(optional_bytes(*value)) == Some("abort"@) {
            StandInMode::Abort
        } else {
            StandInMode::Echo
        },
{
    match readable_value(value) {
        Some(text) => if same_text(text.as_str(), "exit42") {
            StandInMode::Exit
        } else if same_text(text.as_str(), "abort") {
            StandInMode::Abort
        } else {
            StandInMode::Echo
        },
        None => StandInMode::Echo,
    }
}

/// A target compilation receives the controls of its mode behind its arguments, and no other
/// invocation receives any.
pub proof fn law_target_compilations_receive_the_controls(
    arguments: Seq<Seq<u8>>,
    mode: InjectionMode,
    class: Class,
)
    ensures
        ({
            let passed = final_arguments_of(arguments, injected_controls(mode, class));
            &&& class == Class::TargetCompile && mode is Generate ==> passed == arguments.push(
                encode_utf8("-Cprofile-generate="@ + mode->Generate_0),
            )
            &&& class == Class::TargetCompile && mode is Use ==> passed == arguments.push(
                encode_utf8("-Cprofile-use="@ + mode->Use_0),
            ).push(encode_utf8("-Cllvm-args=-pgo-warn-missing-function"@))
            &&& class != Class::TargetCompile || mode is Nothing ==> passed == arguments
        }),
{
    let passed = final_arguments_of(arguments, injected_controls(mode, class));
    let controls = encoded(injected_controls(mode, class));
    if class == Class::TargetCompile && mode is Generate {
        assert(controls =~= seq![encode_utf8("-Cprofile-generate="@ + mode->Generate_0)]);
        assert(passed =~= arguments.push(
            encode_utf8("-Cprofile-generate="@ + mode->Generate_0),
        ));
    } else if class == Class::TargetCompile && mode is Use {
        assert(controls =~= seq![
            encode_utf8("-Cprofile-use="@ + mode->Use_0),
            encode_utf8("-Cllvm-args=-pgo-warn-missing-function"@),
        ]);
        assert(passed =~= arguments.push(encode_utf8("-Cprofile-use="@ + mode->Use_0)).push(
            encode_utf8("-Cllvm-args=-pgo-warn-missing-function"@),
        ));
    } else {
        assert(controls =~= Seq::empty());
        assert(passed =~= arguments);
    }
}

/// Controls are asked for by a way and an absolute path; nothing, an empty text and `none` ask for
/// none, and everything else is refused.
pub proof fn law_modes_are_asked_for_by_name(value: Option<Seq<u8>>)
    ensures
        ({
            let mode = asked_injection(value);
            let text = readable_next(value);
            &&& mode is Ok && mode->Ok_0 is Nothing <==> text is None || text->0.len() == 0
                || text->0 == "none"@
            &&& mode is Ok && mode->Ok_0 is Generate ==> is_absolute_path(
                encode_utf8(mode->Ok_0->Generate_0),
            ) && text->0 == "generate="@ + mode->Ok_0->Generate_0
            &&& mode is Ok && mode->Ok_0 is Use ==> is_absolute_path(
                encode_utf8(mode->Ok_0->Use_0),
            ) && text->0 == "use="@ + mode->Ok_0->Use_0
        }),
{
    let text = readable_next(value);
    if text is Some {
        if "generate="@.is_prefix_of(text->0) {
            assert(text->0 =~= "generate="@ + text->0.skip("generate="@.len() as int));
        }
        if "use="@.is_prefix_of(text->0) {
            assert(text->0 =~= "use="@ + text->0.skip("use="@.len() as int));
        }
    }
}

/// A request is made exactly where the compiler, an existing capture directory, the stage and the
/// target are given and the controls can be read; it then holds those values.
pub proof fn law_requests_hold_what_was_given(values: ShimValues, is_directory: bool)
    ensures
        ({
            let outcome = requested(values, is_directory);
            let real_rustc = optional_bytes(values.real_rustc);
            let capture_directory = optional_bytes(values.capture_directory);
            let stage = given_text(optional_bytes(values.stage));
            let target = given_text(optional_bytes(values.target));
            let injection = asked_injection(optional_bytes(values.injection));
            &&& outcome is Ok <==> {
                &&& real_rustc is Some && is_absolute_path(real_rustc->0)
                &&& capture_directory is Some && capture_directory->0.len() > 0 && is_directory
                &&& stage is Some && target is Some && injection is Ok
            }
            &&& outcome is Ok ==> {
                &&& outcome->Ok_0.real_rustc == real_rustc->0
                &&& outcome->Ok_0.capture_directory == capture_directory->0
                &&& outcome->Ok_0.stage == stage->0
                &&& outcome->Ok_0.target == target->0
                &&& outcome->Ok_0.injection == injection->Ok_0
            }
        }),
{
}

} // verus!
