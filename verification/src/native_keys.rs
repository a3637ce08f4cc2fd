//! Keys of the functions that the host implements.

use crate::data::Dup;
use vstd::prelude::*;
use vstd::string::*;

verus! {

/// A function of the standard library that the host implements.
#[derive(Debug, Clone, Copy, PartialEq, Eq, Structural)]
pub enum NativeKey {
    StdCorePrint,
    StdCorePrintln,
    StdCoreDbg,
    StdCoreAssert,
    StdCoreAssertMsg,
    StdCoreClock,
    StdCoreYoloNone,
    StdCoreYoloErr,
    StdCorePanic,
    StdCoreStringLen,
    StdCoreStringIsEmpty,
    StdCoreStringToUpper,
    StdCoreStringToLower,
    StdCoreStringTrim,
    StdCoreStringTrimStart,
    StdCoreStringTrimEnd,
    StdCoreStringContains,
    StdCoreStringStartsWith,
    StdCoreStringEndsWith,
    StdCoreStringIndexOf,
    StdCoreStringSplit,
    StdCoreStringReplace,
    StdCoreStringRepeat,
    StdCoreStringJoin,
    StdCoreStringChars,
    StdCoreStringCharAt,
    StdCoreStringSubstring,
    StdCoreToString,
    StdCoreI8From,
    StdCoreI16From,
    StdCoreI32From,
    StdCoreI64From,
    StdCoreU8From,
    StdCoreU16From,
    StdCoreU32From,
    StdCoreU64From,
    StdCoreF32From,
    StdCoreF64From,
    StdCoreCharFrom,
    StdCoreListNew,
    StdCoreListFrom,
    StdCoreListPush,
    StdCoreListPop,
    StdCoreListLen,
    StdCoreListGet,
    StdCoreListSet,
    StdCoreListAsSlice,
    StdEnvVar,
    StdEnvVars,
    StdFsReadToString,
    StdFsWriteString,
    StdFsAppendString,
    StdFsExists,
    StdFsReadDir,
    StdFsCreateDir,
    StdFsCreateDirAll,
    StdFsRemoveFile,
    StdFsRemoveDir,
    StdFsRemoveDirAll,
    StdProcessArgs,
    StdProcessRun,
}

/// What a host function is called in diagnostics and profiles.
pub open spec fn native_label(key: NativeKey) -> Seq<char> {
    match key {
        NativeKey::StdCorePrint => "std::core::print"@,
        NativeKey::StdCorePrintln => "std::core::println"@,
        NativeKey::StdCoreDbg => "std::core::dbg"@,
        NativeKey::StdCoreAssert => "std::core::assert"@,
        NativeKey::StdCoreAssertMsg => "std::core::assert_msg"@,
        NativeKey::StdCoreClock => "std::core::clock"@,
        NativeKey::StdCoreYoloNone => "std::core::yolo_none"@,
        NativeKey::StdCoreYoloErr => "std::core::yolo_err"@,
        NativeKey::StdCorePanic => "std::core::panic"@,
        NativeKey::StdCoreStringLen => "String::len"@,
        NativeKey::StdCoreStringIsEmpty => "String::is_empty"@,
        NativeKey::StdCoreStringToUpper => "String::to_upper"@,
        NativeKey::StdCoreStringToLower => "String::to_lower"@,
        NativeKey::StdCoreStringTrim => "String::trim"@,
        NativeKey::StdCoreStringTrimStart => "String::trim_start"@,
        NativeKey::StdCoreStringTrimEnd => "String::trim_end"@,
        NativeKey::StdCoreStringContains => "String::contains"@,
        NativeKey::StdCoreStringStartsWith => "String::starts_with"@,
        NativeKey::StdCoreStringEndsWith => "String::ends_with"@,
        NativeKey::StdCoreStringIndexOf => "String::index_of"@,
        NativeKey::StdCoreStringSplit => "String::split"@,
        NativeKey::StdCoreStringReplace => "String::replace"@,
        NativeKey::StdCoreStringRepeat => "String::repeat"@,
        NativeKey::StdCoreStringJoin => "String::join"@,
        NativeKey::StdCoreStringChars => "String::chars"@,
        NativeKey::StdCoreStringCharAt => "String::char_at"@,
        NativeKey::StdCoreStringSubstring => "String::substring"@,
        NativeKey::StdCoreToString => "Display::to_string"@,
        NativeKey::StdCoreI8From => "i8::from"@,
        NativeKey::StdCoreI16From => "i16::from"@,
        NativeKey::StdCoreI32From => "i32::from"@,
        NativeKey::StdCoreI64From => "i64::from"@,
        NativeKey::StdCoreU8From => "u8::from"@,
        NativeKey::StdCoreU16From => "u16::from"@,
        NativeKey::StdCoreU32From => "u32::from"@,
        NativeKey::StdCoreU64From => "u64::from"@,
        NativeKey::StdCoreF32From => "f32::from"@,
        NativeKey::StdCoreF64From => "f64::from"@,
        NativeKey::StdCoreCharFrom => "Char::from"@,
        NativeKey::StdCoreListNew => "List::new"@,
        NativeKey::StdCoreListFrom => "List::from"@,
        NativeKey::StdCoreListPush => "List::push"@,
        NativeKey::StdCoreListPop => "List::pop"@,
        NativeKey::StdCoreListLen => "List::len"@,
        NativeKey::StdCoreListGet => "List::get"@,
        NativeKey::StdCoreListSet => "List::set"@,
        NativeKey::StdCoreListAsSlice => "List::as_slice"@,
        NativeKey::StdEnvVar => "std::env::get"@,
        NativeKey::StdEnvVars => "std::env::vars"@,
        NativeKey::StdFsReadToString => "std::fs::read_to_string"@,
        NativeKey::StdFsWriteString => "std::fs::write_string"@,
        NativeKey::StdFsAppendString => "std::fs::append_string"@,
        NativeKey::StdFsExists => "std::fs::exists"@,
        NativeKey::StdFsReadDir => "std::fs::read_dir"@,
        NativeKey::StdFsCreateDir => "std::fs::create_dir"@,
        NativeKey::StdFsCreateDirAll => "std::fs::create_dir_all"@,
        NativeKey::StdFsRemoveFile => "std::fs::remove_file"@,
        NativeKey::StdFsRemoveDir => "std::fs::remove_dir"@,
        NativeKey::StdFsRemoveDirAll => "std::fs::remove_dir_all"@,
        NativeKey::StdProcessArgs => "std::process::args"@,
        NativeKey::StdProcessRun => "std::process::run"@,
    }
}

impl NativeKey {
    /// What the function is called in diagnostics and profiles.
    pub fn label(self) -> (s: String)
        ensures
            s@ == native_label(self),
    {
        match self {
            NativeKey::StdCorePrint => "std::core::print".to_owned(),
            NativeKey::StdCorePrintln => "std::core::println".to_owned(),
            NativeKey::StdCoreDbg => "std::core::dbg".to_owned(),
            NativeKey::StdCoreAssert => "std::core::assert".to_owned(),
            NativeKey::StdCoreAssertMsg => "std::core::assert_msg".to_owned(),
            NativeKey::StdCoreClock => "std::core::clock".to_owned(),
            NativeKey::StdCoreYoloNone => "std::core::yolo_none".to_owned(),
            NativeKey::StdCoreYoloErr => "std::core::yolo_err".to_owned(),
            NativeKey::StdCorePanic => "std::core::panic".to_owned(),
            NativeKey::StdCoreStringLen => "String::len".to_owned(),
            NativeKey::StdCoreStringIsEmpty => "String::is_empty".to_owned(),
            NativeKey::StdCoreStringToUpper => "String::to_upper".to_owned(),
            NativeKey::StdCoreStringToLower => "String::to_lower".to_owned(),
            NativeKey::StdCoreStringTrim => "String::trim".to_owned(),
            NativeKey::StdCoreStringTrimStart => "String::trim_start".to_owned(),
            NativeKey::StdCoreStringTrimEnd => "String::trim_end".to_owned(),
            NativeKey::StdCoreStringContains => "String::contains".to_owned(),
            NativeKey::StdCoreStringStartsWith => "String::starts_with".to_owned(),
            NativeKey::StdCoreStringEndsWith => "String::ends_with".to_owned(),
            NativeKey::StdCoreStringIndexOf => "String::index_of".to_owned(),
            NativeKey::StdCoreStringSplit => "String::split".to_owned(),
            NativeKey::StdCoreStringReplace => "String::replace".to_owned(),
            NativeKey::StdCoreStringRepeat => "String::repeat".to_owned(),
            NativeKey::StdCoreStringJoin => "String::join".to_owned(),
            NativeKey::StdCoreStringChars => "String::chars".to_owned(),
            NativeKey::StdCoreStringCharAt => "String::char_at".to_owned(),
            NativeKey::StdCoreStringSubstring => "String::substring".to_owned(),
            NativeKey::StdCoreToString => "Display::to_string".to_owned(),
            NativeKey::StdCoreI8From => "i8::from".to_owned(),
            NativeKey::StdCoreI16From => "i16::from".to_owned(),
            NativeKey::StdCoreI32From => "i32::from".to_owned(),
            NativeKey::StdCoreI64From => "i64::from".to_owned(),
            NativeKey::StdCoreU8From => "u8::from".to_owned(),
            NativeKey::StdCoreU16From => "u16::from".to_owned(),
            NativeKey::StdCoreU32From => "u32::from".to_owned(),
            NativeKey::StdCoreU64From => "u64::from".to_owned(),
            NativeKey::StdCoreF32From => "f32::from".to_owned(),
            NativeKey::StdCoreF64From => "f64::from".to_owned(),
            NativeKey::StdCoreCharFrom => "Char::from".to_owned(),
            NativeKey::StdCoreListNew => "List::new".to_owned(),
            NativeKey::StdCoreListFrom => "List::from".to_owned(),
            NativeKey::StdCoreListPush => "List::push".to_owned(),
            NativeKey::StdCoreListPop => "List::pop".to_owned(),
            NativeKey::StdCoreListLen => "List::len".to_owned(),
            NativeKey::StdCoreListGet => "List::get".to_owned(),
            NativeKey::StdCoreListSet => "List::set".to_owned(),
            NativeKey::StdCoreListAsSlice => "List::as_slice".to_owned(),
            NativeKey::StdEnvVar => "std::env::get".to_owned(),
            NativeKey::StdEnvVars => "std::env::vars".to_owned(),
            NativeKey::StdFsReadToString => "std::fs::read_to_string".to_owned(),
            NativeKey::StdFsWriteString => "std::fs::write_string".to_owned(),
            NativeKey::StdFsAppendString => "std::fs::append_string".to_owned(),
            NativeKey::StdFsExists => "std::fs::exists".to_owned(),
            NativeKey::StdFsReadDir => "std::fs::read_dir".to_owned(),
            NativeKey::StdFsCreateDir => "std::fs::create_dir".to_owned(),
            NativeKey::StdFsCreateDirAll => "std::fs::create_dir_all".to_owned(),
            NativeKey::StdFsRemoveFile => "std::fs::remove_file".to_owned(),
            NativeKey::StdFsRemoveDir => "std::fs::remove_dir".to_owned(),
            NativeKey::StdFsRemoveDirAll => "std::fs::remove_dir_all".to_owned(),
            NativeKey::StdProcessArgs => "std::process::args".to_owned(),
            NativeKey::StdProcessRun => "std::process::run".to_owned(),
        }
    }

    /// All keys.
    pub fn all() -> (keys: Vec<NativeKey>)
        ensures
            keys@.len() == NATIVE_COUNT,
            forall|k: NativeKey| #[trigger] keys@.contains(k),
    {
        let mut keys: Vec<NativeKey> = Vec::new();
        let mut i: usize = 0;
        while i < NATIVE_COUNT
            invariant
                i <= NATIVE_COUNT,
                keys@.len() == i,
                forall|j: int| 0 <= j < i ==> keys@[j] == #[trigger] key_at(j),
            decreases NATIVE_COUNT - i,
        {
            keys.push(nth_key(i));
            i += 1;
        }
        proof {
            assert forall|k: NativeKey| #[trigger] keys@.contains(k) by {
                lemma_key_position(k);
                assert(keys@[key_position(k)] == key_at(key_position(k)));
            }
        }
        keys
    }
}

/// How many host functions there are.
pub const NATIVE_COUNT: usize = 61;

/// The key at a position of the list of all keys.
pub open spec fn key_at(i: int) -> NativeKey {
    if i == 0 {
        NativeKey::StdCorePrint
    } else if i == 1 {
        NativeKey::StdCorePrintln
    } else if i == 2 {
        NativeKey::StdCoreDbg
    } else if i == 3 {
        NativeKey::StdCoreAssert
    } else if i == 4 {
        NativeKey::StdCoreAssertMsg
    } else if i == 5 {
        NativeKey::StdCoreClock
    } else if i == 6 {
        NativeKey::StdCoreYoloNone
    } else if i == 7 {
        NativeKey::StdCoreYoloErr
    } else if i == 8 {
        NativeKey::StdCorePanic
    } else if i == 9 {
        NativeKey::StdCoreStringLen
    } else if i == 10 {
        NativeKey::StdCoreStringIsEmpty
    } else if i == 11 {
        NativeKey::StdCoreStringToUpper
    } else if i == 12 {
        NativeKey::StdCoreStringToLower
    } else if i == 13 {
        NativeKey::StdCoreStringTrim
    } else if i == 14 {
        NativeKey::StdCoreStringTrimStart
    } else if i == 15 {
        NativeKey::StdCoreStringTrimEnd
    } else if i == 16 {
        NativeKey::StdCoreStringContains
    } else if i == 17 {
        NativeKey::StdCoreStringStartsWith
    } else if i == 18 {
        NativeKey::StdCoreStringEndsWith
    } else if i == 19 {
        NativeKey::StdCoreStringIndexOf
    } else if i == 20 {
        NativeKey::StdCoreStringSplit
    } else if i == 21 {
        NativeKey::StdCoreStringReplace
    } else if i == 22 {
        NativeKey::StdCoreStringRepeat
    } else if i == 23 {
        NativeKey::StdCoreStringJoin
    } else if i == 24 {
        NativeKey::StdCoreStringChars
    } else if i == 25 {
        NativeKey::StdCoreStringCharAt
    } else if i == 26 {
        NativeKey::StdCoreStringSubstring
    } else if i == 27 {
        NativeKey::StdCoreToString
    } else if i == 28 {
        NativeKey::StdCoreI8From
    } else if i == 29 {
        NativeKey::StdCoreI16From
    } else if i == 30 {
        NativeKey::StdCoreI32From
    } else if i == 31 {
        NativeKey::StdCoreI64From
    } else if i == 32 {
        NativeKey::StdCoreU8From
    } else if i == 33 {
        NativeKey::StdCoreU16From
    } else if i == 34 {
        NativeKey::StdCoreU32From
    } else if i == 35 {
        NativeKey::StdCoreU64From
    } else if i == 36 {
        NativeKey::StdCoreF32From
    } else if i == 37 {
        NativeKey::StdCoreF64From
    } else if i == 38 {
        NativeKey::StdCoreCharFrom
    } else if i == 39 {
        NativeKey::StdCoreListNew
    } else if i == 40 {
        NativeKey::StdCoreListFrom
    } else if i == 41 {
        NativeKey::StdCoreListPush
    } else if i == 42 {
        NativeKey::StdCoreListPop
    } else if i == 43 {
        NativeKey::StdCoreListLen
    } else if i == 44 {
        NativeKey::StdCoreListGet
    } else if i == 45 {
        NativeKey::StdCoreListSet
    } else if i == 46 {
        NativeKey::StdCoreListAsSlice
    } else if i == 47 {
        NativeKey::StdEnvVar
    } else if i == 48 {
        NativeKey::StdEnvVars
    } else if i == 49 {
        NativeKey::StdFsReadToString
    } else if i == 50 {
        NativeKey::StdFsWriteString
    } else if i == 51 {
        NativeKey::StdFsAppendString
    } else if i == 52 {
        NativeKey::StdFsExists
    } else if i == 53 {
        NativeKey::StdFsReadDir
    } else if i == 54 {
        NativeKey::StdFsCreateDir
    } else if i == 55 {
        NativeKey::StdFsCreateDirAll
    } else if i == 56 {
        NativeKey::StdFsRemoveFile
    } else if i == 57 {
        NativeKey::StdFsRemoveDir
    } else if i == 58 {
        NativeKey::StdFsRemoveDirAll
    } else if i == 59 {
        NativeKey::StdProcessArgs
    } else {
        NativeKey::StdProcessRun
    }
}

/// Where a key stands in the list of all keys.
pub open spec fn key_position(k: NativeKey) -> int {
    match k {
        NativeKey::StdCorePrint => 0,
        NativeKey::StdCorePrintln => 1,
        NativeKey::StdCoreDbg => 2,
        NativeKey::StdCoreAssert => 3,
        NativeKey::StdCoreAssertMsg => 4,
        NativeKey::StdCoreClock => 5,
        NativeKey::StdCoreYoloNone => 6,
        NativeKey::StdCoreYoloErr => 7,
        NativeKey::StdCorePanic => 8,
        NativeKey::StdCoreStringLen => 9,
        NativeKey::StdCoreStringIsEmpty => 10,
        NativeKey::StdCoreStringToUpper => 11,
        NativeKey::StdCoreStringToLower => 12,
        NativeKey::StdCoreStringTrim => 13,
        NativeKey::StdCoreStringTrimStart => 14,
        NativeKey::StdCoreStringTrimEnd => 15,
        NativeKey::StdCoreStringContains => 16,
        NativeKey::StdCoreStringStartsWith => 17,
        NativeKey::StdCoreStringEndsWith => 18,
        NativeKey::StdCoreStringIndexOf => 19,
        NativeKey::StdCoreStringSplit => 20,
        NativeKey::StdCoreStringReplace => 21,
        NativeKey::StdCoreStringRepeat => 22,
        NativeKey::StdCoreStringJoin => 23,
        NativeKey::StdCoreStringChars => 24,
        NativeKey::StdCoreStringCharAt => 25,
        NativeKey::StdCoreStringSubstring => 26,
        NativeKey::StdCoreToString => 27,
        NativeKey::StdCoreI8From => 28,
        NativeKey::StdCoreI16From => 29,
        NativeKey::StdCoreI32From => 30,
        NativeKey::StdCoreI64From => 31,
        NativeKey::StdCoreU8From => 32,
        NativeKey::StdCoreU16From => 33,
        NativeKey::StdCoreU32From => 34,
        NativeKey::StdCoreU64From => 35,
        NativeKey::StdCoreF32From => 36,
        NativeKey::StdCoreF64From => 37,
        NativeKey::StdCoreCharFrom => 38,
        NativeKey::StdCoreListNew => 39,
        NativeKey::StdCoreListFrom => 40,
        NativeKey::StdCoreListPush => 41,
        NativeKey::StdCoreListPop => 42,
        NativeKey::StdCoreListLen => 43,
        NativeKey::StdCoreListGet => 44,
        NativeKey::StdCoreListSet => 45,
        NativeKey::StdCoreListAsSlice => 46,
        NativeKey::StdEnvVar => 47,
        NativeKey::StdEnvVars => 48,
        NativeKey::StdFsReadToString => 49,
        NativeKey::StdFsWriteString => 50,
        NativeKey::StdFsAppendString => 51,
        NativeKey::StdFsExists => 52,
        NativeKey::StdFsReadDir => 53,
        NativeKey::StdFsCreateDir => 54,
        NativeKey::StdFsCreateDirAll => 55,
        NativeKey::StdFsRemoveFile => 56,
        NativeKey::StdFsRemoveDir => 57,
        NativeKey::StdFsRemoveDirAll => 58,
        NativeKey::StdProcessArgs => 59,
        NativeKey::StdProcessRun => 60,
    }
}

proof fn lemma_key_position(k: NativeKey)
    ensures
        0 <= key_position(k) < NATIVE_COUNT,
        key_at(key_position(k)) == k,
{
}

fn nth_key(i: usize) -> (k: NativeKey)
    requires
        i < NATIVE_COUNT,
    ensures
        k == key_at(i as int),
{
    if i == 0 {
        NativeKey::StdCorePrint
    } else if i == 1 {
        NativeKey::StdCorePrintln
    } else if i == 2 {
        NativeKey::StdCoreDbg
    } else if i == 3 {
        NativeKey::StdCoreAssert
    } else if i == 4 {
        NativeKey::StdCoreAssertMsg
    } else if i == 5 {
        NativeKey::StdCoreClock
    } else if i == 6 {
        NativeKey::StdCoreYoloNone
    } else if i == 7 {
        NativeKey::StdCoreYoloErr
    } else if i == 8 {
        NativeKey::StdCorePanic
    } else if i == 9 {
        NativeKey::StdCoreStringLen
    } else if i == 10 {
        NativeKey::StdCoreStringIsEmpty
    } else if i == 11 {
        NativeKey::StdCoreStringToUpper
    } else if i == 12 {
        NativeKey::StdCoreStringToLower
    } else if i == 13 {
        NativeKey::StdCoreStringTrim
    } else if i == 14 {
        NativeKey::StdCoreStringTrimStart
    } else if i == 15 {
        NativeKey::StdCoreStringTrimEnd
    } else if i == 16 {
        NativeKey::StdCoreStringContains
    } else if i == 17 {
        NativeKey::StdCoreStringStartsWith
    } else if i == 18 {
        NativeKey::StdCoreStringEndsWith
    } else if i == 19 {
        NativeKey::StdCoreStringIndexOf
    } else if i == 20 {
        NativeKey::StdCoreStringSplit
    } else if i == 21 {
        NativeKey::StdCoreStringReplace
    } else if i == 22 {
        NativeKey::StdCoreStringRepeat
    } else if i == 23 {
        NativeKey::StdCoreStringJoin
    } else if i == 24 {
        NativeKey::StdCoreStringChars
    } else if i == 25 {
        NativeKey::StdCoreStringCharAt
    } else if i == 26 {
        NativeKey::StdCoreStringSubstring
    } else if i == 27 {
        NativeKey::StdCoreToString
    } else if i == 28 {
        NativeKey::StdCoreI8From
    } else if i == 29 {
        NativeKey::StdCoreI16From
    } else if i == 30 {
        NativeKey::StdCoreI32From
    } else if i == 31 {
        NativeKey::StdCoreI64From
    } else if i == 32 {
        NativeKey::StdCoreU8From
    } else if i == 33 {
        NativeKey::StdCoreU16From
    } else if i == 34 {
        NativeKey::StdCoreU32From
    } else if i == 35 {
        NativeKey::StdCoreU64From
    } else if i == 36 {
        NativeKey::StdCoreF32From
    } else if i == 37 {
        NativeKey::StdCoreF64From
    } else if i == 38 {
        NativeKey::StdCoreCharFrom
    } else if i == 39 {
        NativeKey::StdCoreListNew
    } else if i == 40 {
        NativeKey::StdCoreListFrom
    } else if i == 41 {
        NativeKey::StdCoreListPush
    } else if i == 42 {
        NativeKey::StdCoreListPop
    } else if i == 43 {
        NativeKey::StdCoreListLen
    } else if i == 44 {
        NativeKey::StdCoreListGet
    } else if i == 45 {
        NativeKey::StdCoreListSet
    } else if i == 46 {
        NativeKey::StdCoreListAsSlice
    } else if i == 47 {
        NativeKey::StdEnvVar
    } else if i == 48 {
        NativeKey::StdEnvVars
    } else if i == 49 {
        NativeKey::StdFsReadToString
    } else if i == 50 {
        NativeKey::StdFsWriteString
    } else if i == 51 {
        NativeKey::StdFsAppendString
    } else if i == 52 {
        NativeKey::StdFsExists
    } else if i == 53 {
        NativeKey::StdFsReadDir
    } else if i == 54 {
        NativeKey::StdFsCreateDir
    } else if i == 55 {
        NativeKey::StdFsCreateDirAll
    } else if i == 56 {
        NativeKey::StdFsRemoveFile
    } else if i == 57 {
        NativeKey::StdFsRemoveDir
    } else if i == 58 {
        NativeKey::StdFsRemoveDirAll
    } else if i == 59 {
        NativeKey::StdProcessArgs
    } else {
        NativeKey::StdProcessRun
    }
}

/// What an intrinsic does: a key of the standard library, or the length of an
/// array.
#[derive(Debug, Clone, Copy, PartialEq, Eq, Structural)]
pub enum NativeFn {
    Key(NativeKey),
    ArrayLen,
}

impl DeepView for NativeFn {
    type V = NativeFn;

    open spec fn deep_view(&self) -> NativeFn {
        *self
    }
}

impl Dup for NativeFn {
    fn dup(&self) -> (r: Self) {
        *self
    }
}

} // verus!
