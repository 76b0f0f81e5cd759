//! Game versions, namespaced identifiers, and blocks in the Universal format.

use std::collections::{BTreeMap, VecDeque};

use vstd::prelude::*;

use crate::text::{boxed_str_from, chars_of, string_from_chars};

verus! {

/// The properties of a block, by name. A `BTreeMap` keeps blocks hashable and ordered.
pub type BlockProperties = BTreeMap<String, BlockProperty>;

pub const UNIVERSAL_NAMESPACE: &'static str = "universal_minecraft";

pub const MINECRAFT_NAMESPACE: &'static str = "minecraft";

/// The position of a block in a world.
#[derive(Debug, Clone, Copy, PartialEq, Eq, PartialOrd, Ord, Hash, Structural)]
pub struct BlockPosition {
    pub x: i32,
    pub y: i32,
    pub z: i32,
}

/// The possible variants of block properties in the Universal format
#[derive(Debug, Clone, PartialEq, Eq, PartialOrd, Ord, Hash)]
pub enum BlockProperty {
    Byte(i8),
    Short(i16),
    Int(i32),
    Long(i64),
    String(String),
}

// ================================
//  Numeric versions
// ================================

/// A numeric version of Minecraft, such as 1.21.0 (stored as 1.21.0.0.0), or 1.16.100.56
/// in Bedrock.
#[derive(Debug, Clone, Copy, PartialEq, Eq, PartialOrd, Ord, Hash, Structural)]
pub struct NumericVersion(pub u32, pub u32, pub u32, pub u32, pub u32);

/// Whether version `a` comes before version `b`, comparing components from the first.
pub open spec fn spec_version_lt(a: NumericVersion, b: NumericVersion) -> bool {
    if a.0 != b.0 {
        a.0 < b.0
    } else if a.1 != b.1 {
        a.1 < b.1
    } else if a.2 != b.2 {
        a.2 < b.2
    } else if a.3 != b.3 {
        a.3 < b.3
    } else {
        a.4 < b.4
    }
}

/// Whether version `a` comes before or is version `b`.
pub open spec fn spec_version_le(a: NumericVersion, b: NumericVersion) -> bool {
    spec_version_lt(a, b) || a == b
}

/// Whether version `a` comes before version `b`, comparing components from the first.
pub fn version_lt(a: NumericVersion, b: NumericVersion) -> (res: bool)
    ensures
        res == spec_version_lt(a, b),
{
    if a.0 != b.0 {
        a.0 < b.0
    } else if a.1 != b.1 {
        a.1 < b.1
    } else if a.2 != b.2 {
        a.2 < b.2
    } else if a.3 != b.3 {
        a.3 < b.3
    } else {
        a.4 < b.4
    }
}

/// The pieces of `s` between occurrences of `sep`, like `str::split`.
pub open spec fn spec_split(s: Seq<char>, sep: char) -> Seq<Seq<char>>
    decreases s.len(),
{
    if s.len() == 0 {
        seq![Seq::empty()]
    } else {
        let prev = spec_split(s.drop_last(), sep);
        if s.last() == sep {
            prev.push(Seq::empty())
        } else {
            prev.update(prev.len() - 1, prev.last().push(s.last()))
        }
    }
}

proof fn lemma_split_nonempty(s: Seq<char>, sep: char)
    ensures
        spec_split(s, sep).len() >= 1,
    decreases s.len(),
{
    if s.len() > 0 {
        lemma_split_nonempty(s.drop_last(), sep);
    }
}

/// Whether `c` is an ASCII decimal digit.
pub open spec fn spec_is_digit(c: char) -> bool {
    '0' <= c <= '9'
}

/// The value of a sequence of decimal digits.
pub open spec fn spec_decimal(digits: Seq<char>) -> nat
    decreases digits.len(),
{
    if digits.len() == 0 {
        0
    } else {
        spec_decimal(digits.drop_last()) * 10 + (digits.last() as nat - '0' as nat) as nat
    }
}

/// `s` without a leading `+`, if it has one.
pub open spec fn spec_unsigned_digits(s: Seq<char>) -> Seq<char> {
    if s.len() > 0 && s[0] == '+' {
        s.drop_first()
    } else {
        s
    }
}

/// Whether every character of `d` is a decimal digit.
pub open spec fn spec_all_digits(d: Seq<char>) -> bool {
    forall|i: int| 0 <= i < d.len() ==> spec_is_digit(#[trigger] d[i])
}

/// The `u32` that `u32::from_str_radix(s, 10)` reads: an optional `+` and then at least
/// one decimal digit, with a value that fits in a `u32`.
pub open spec fn spec_parse_u32(s: Seq<char>) -> Option<u32> {
    let digits = spec_unsigned_digits(s);
    if digits.len() == 0 || !spec_all_digits(digits) {
        None
    } else if spec_decimal(digits) > u32::MAX {
        None
    } else {
        Some(spec_decimal(digits) as u32)
    }
}

/// Read a decimal `u32` as `u32::from_str_radix(s, 10)` does.
pub fn parse_u32_decimal(s: &[char]) -> (res: Option<u32>)
    ensures
        res == spec_parse_u32(s@),
{
    let start: usize = if s.len() > 0 && s[0] == '+' {
        1
    } else {
        0
    };
    let ghost digits = spec_unsigned_digits(s@);
    assert(digits =~= s@.subrange(start as int, s@.len() as int));
    if start == s.len() {
        return None;
    }
    // The value so far, saturated at `u32::MAX + 1`.
    let mut value: u64 = 0;
    let mut i: usize = start;
    while i < s.len()
        invariant
            start <= i <= s@.len(),
            digits == spec_unsigned_digits(s@),
            digits =~= s@.subrange(start as int, s@.len() as int),
            forall|j: int| start <= j < i ==> spec_is_digit(s@[j]),
            value == if spec_decimal(s@.subrange(start as int, i as int)) > u32::MAX {
                u32::MAX as nat + 1
            } else {
                spec_decimal(s@.subrange(start as int, i as int))
            },
        decreases s@.len() - i,
    {
        let c = s[i];
        if !('0' <= c && c <= '9') {
            assert(!spec_all_digits(digits)) by {
                assert(digits[i - start] == c);
            }
            return None;
        }
        let d = (c as u32 - '0' as u32) as u64;
        assert(s@.subrange(start as int, i + 1).drop_last() =~= s@.subrange(start as int, i as int));
        value = value * 10 + d;
        if value > 0xFFFF_FFFF {
            value = 0x1_0000_0000;
        }
        i = i + 1;
    }
    assert(s@.subrange(start as int, s@.len() as int) =~= digits);
    assert(spec_all_digits(digits)) by {
        assert forall|j: int| 0 <= j < digits.len() implies spec_is_digit(#[trigger] digits[j]) by {
            assert(digits[j] == s@[start + j]);
        }
    }
    if value > 0xFFFF_FFFF {
        None
    } else {
        Some(value as u32)
    }
}

/// Whether each of `parts` is a decimal `u32`.
pub open spec fn spec_all_components(parts: Seq<Seq<char>>) -> bool {
    forall|i: int| 0 <= i < parts.len() ==> (#[trigger] spec_parse_u32(parts[i])) is Some
}

/// The `i`th component of a version written as `parts`, zero where it is missing.
pub open spec fn spec_component(parts: Seq<Seq<char>>, i: int) -> u32 {
    if i < parts.len() {
        spec_parse_u32(parts[i])->0
    } else {
        0u32
    }
}

impl NumericVersion {
    /// The version that `NumericVersion::parse` reads from `s`: two to five components
    /// separated by `.`, each a decimal `u32`; missing components are zero.
    pub open spec fn spec_parse(s: Seq<char>) -> Option<NumericVersion> {
        let parts = spec_split(s, '.');
        if parts.len() < 2 || parts.len() > 5 {
            None
        } else if !spec_all_components(parts) {
            None
        } else {
            Some(
                NumericVersion(
                    spec_component(parts, 0),
                    spec_component(parts, 1),
                    spec_component(parts, 2),
                    spec_component(parts, 3),
                    spec_component(parts, 4),
                ),
            )
        }
    }

    /// Parse a string into a numeric version.
    ///
    /// Note that the first component is always the major version, so "1.0" is parsed the same
    /// as "1.0.0" and not "0.1.0". A single component, such as "1", is assumed to be a mistake
    /// and returns `None`. Additionally, parsing `"1."` will return `None`, as it is split into
    /// `"1"` and `""`, and the latter cannot be parsed into a number.
    pub fn parse(version: &str) -> (res: Option<Self>)
        ensures
            res == Self::spec_parse(version@),
    {
        let chars = chars_of(version);
        let parts = split_chars(chars.as_slice(), '.');
        let ghost spec_parts = spec_split(version@, '.');
        if parts.len() < 2 || parts.len() > 5 {
            return None;
        }
        let mut nums: [u32; 5] = [0; 5];
        let mut i: usize = 0;
        while i < parts.len()
            invariant
                2 <= parts@.len() <= 5,
                spec_parts == spec_split(version@, '.'),
                parts@.len() == spec_parts.len(),
                forall|j: int| 0 <= j < parts@.len() ==> (#[trigger] parts@[j])@ == spec_parts[j],
                i <= parts@.len(),
                forall|j: int| 0 <= j < i ==> spec_parse_u32(spec_parts[j]) == Some(#[trigger] nums@[j]),
                forall|j: int| i <= j < 5 ==> nums@[j] == 0,
            decreases parts@.len() - i,
        {
            match parse_u32_decimal(parts[i].as_slice()) {
                Some(n) => {
                    nums[i] = n;
                },
                None => {
                    assert(!spec_all_components(spec_parts)) by {
                        assert(spec_parse_u32(spec_parts[i as int]) is None);
                    }
                    return None;
                },
            }
            i = i + 1;
        }
        Some(NumericVersion(nums[0], nums[1], nums[2], nums[3], nums[4]))
    }
}

/// Split a sequence of characters on each occurrence of `sep`.
pub fn split_chars(s: &[char], sep: char) -> (res: Vec<Vec<char>>)
    ensures
        res@.len() == spec_split(s@, sep).len(),
        forall|j: int| 0 <= j < res@.len() ==> (#[trigger] res@[j])@ == spec_split(s@, sep)[j],
{
    let mut done: Vec<Vec<char>> = Vec::new();
    let mut current: Vec<char> = Vec::new();
    let mut i: usize = 0;
    while i < s.len()
        invariant
            i <= s@.len(),
            done@.len() + 1 == spec_split(s@.subrange(0, i as int), sep).len(),
            forall|j: int|
                0 <= j < done@.len() ==> (#[trigger] done@[j])@ == spec_split(
                    s@.subrange(0, i as int),
                    sep,
                )[j],
            current@ == spec_split(s@.subrange(0, i as int), sep).last(),
        decreases s@.len() - i,
    {
        proof {
            lemma_split_nonempty(s@.subrange(0, i as int), sep);
            assert(s@.subrange(0, i + 1).drop_last() =~= s@.subrange(0, i as int));
        }
        let c = s[i];
        if c == sep {
            done.push(current);
            current = Vec::new();
        } else {
            current.push(c);
        }
        i = i + 1;
    }
    done.push(current);
    proof {
        assert(s@.subrange(0, s@.len() as int) =~= s@);
        lemma_split_nonempty(s@, sep);
    }
    done
}

impl From<[u32; 5]> for NumericVersion {
    fn from(value: [u32; 5]) -> (res: Self) {
        NumericVersion(value[0], value[1], value[2], value[3], value[4])
    }
}

impl vstd::std_specs::convert::FromSpecImpl<[u32; 5]> for NumericVersion {
    open spec fn obeys_from_spec() -> bool {
        true
    }

    open spec fn from_spec(value: [u32; 5]) -> NumericVersion {
        NumericVersion(value@[0], value@[1], value@[2], value@[3], value@[4])
    }
}

impl From<[u32; 3]> for NumericVersion {
    fn from(value: [u32; 3]) -> (res: Self) {
        NumericVersion(value[0], value[1], value[2], 0, 0)
    }
}

impl vstd::std_specs::convert::FromSpecImpl<[u32; 3]> for NumericVersion {
    open spec fn obeys_from_spec() -> bool {
        true
    }

    open spec fn from_spec(value: [u32; 3]) -> NumericVersion {
        NumericVersion(value@[0], value@[1], value@[2], 0, 0)
    }
}

impl From<(u32, u32, u32, u32, u32)> for NumericVersion {
    fn from(value: (u32, u32, u32, u32, u32)) -> (res: Self) {
        NumericVersion(value.0, value.1, value.2, value.3, value.4)
    }
}

impl vstd::std_specs::convert::FromSpecImpl<(u32, u32, u32, u32, u32)> for NumericVersion {
    open spec fn obeys_from_spec() -> bool {
        true
    }

    open spec fn from_spec(value: (u32, u32, u32, u32, u32)) -> NumericVersion {
        NumericVersion(value.0, value.1, value.2, value.3, value.4)
    }
}

impl From<(u32, u32, u32)> for NumericVersion {
    fn from(value: (u32, u32, u32)) -> (res: Self) {
        NumericVersion(value.0, value.1, value.2, 0, 0)
    }
}

impl vstd::std_specs::convert::FromSpecImpl<(u32, u32, u32)> for NumericVersion {
    open spec fn obeys_from_spec() -> bool {
        true
    }

    open spec fn from_spec(value: (u32, u32, u32)) -> NumericVersion {
        NumericVersion(value.0, value.1, value.2, 0, 0)
    }
}

impl From<NumericVersion> for [u32; 5] {
    fn from(value: NumericVersion) -> (res: Self) {
        [value.0, value.1, value.2, value.3, value.4]
    }
}

impl vstd::std_specs::convert::FromSpecImpl<NumericVersion> for [u32; 5] {
    open spec fn obeys_from_spec() -> bool {
        true
    }

    closed spec fn from_spec(value: NumericVersion) -> [u32; 5] {
        [value.0, value.1, value.2, value.3, value.4]
    }
}

impl From<NumericVersion> for (u32, u32, u32, u32, u32) {
    fn from(value: NumericVersion) -> (res: Self) {
        (value.0, value.1, value.2, value.3, value.4)
    }
}

impl vstd::std_specs::convert::FromSpecImpl<NumericVersion> for (u32, u32, u32, u32, u32) {
    open spec fn obeys_from_spec() -> bool {
        true
    }

    open spec fn from_spec(value: NumericVersion) -> (u32, u32, u32, u32, u32) {
        (value.0, value.1, value.2, value.3, value.4)
    }
}

/// A version name, numeric if it can be parsed as one.
#[derive(Debug, Clone, PartialEq, Eq, Hash)]
pub enum VersionName {
    Numeric(NumericVersion),
    String(String),
}

impl VersionName {
    pub fn parse_numeric(version: &str) -> (res: Option<Self>)
        ensures
            res == match NumericVersion::spec_parse(version@) {
                Some(v) => Some(VersionName::Numeric(v)),
                None => None::<VersionName>,
            },
    {
        match NumericVersion::parse(version) {
            Some(v) => Some(VersionName::Numeric(v)),
            None => None,
        }
    }

    pub fn numeric(major: u32, minor: u32, patch: u32) -> (res: Self)
        ensures
            res == VersionName::Numeric(NumericVersion(major, minor, patch, 0, 0)),
    {
        VersionName::Numeric(NumericVersion(major, minor, patch, 0, 0))
    }
}

/// Indicates a version of the game, which may have a different encoding for game data.
#[derive(Debug, Clone, PartialEq, Eq, Hash)]
pub enum GameVersion {
    Universal,
    Bedrock(VersionName),
    Java(VersionName),
    Other(String, VersionName),
}

// ================================
//  Identifiers
// ================================

/// Namespaced identifiers are also known as resource locations.
#[derive(Debug, Clone, PartialEq, Eq, PartialOrd, Ord, Hash)]
pub struct NamespacedIdentifier {
    pub namespace: Box<str>,
    pub path: Box<str>,
}

/// Parse options for [`NamespacedIdentifier`]s, also known as Resource Locations.
#[derive(Debug, Clone, Copy, PartialEq, Eq)]
pub struct IdentifierParseOptions {
    /// If `Some`, if the `namespace:` part of `namespace:path` is missing, assume
    /// that the namespace is this string; if `None`, a missing namespace is an error.
    pub default_namespace: Option<&'static str>,
    /// If true, use Java Edition's stricter restrictions for the characters
    /// which may appear in a [`NamespacedIdentifier`].
    pub java_character_constraints: bool,
}

impl Default for IdentifierParseOptions {
    /// Defaults to the strictest settings.
    fn default() -> (res: Self)
        ensures
            res.default_namespace is None,
            res.java_character_constraints,
    {
        IdentifierParseOptions { default_namespace: None, java_character_constraints: true }
    }
}

/// An error while parsing a namespaced identifier.
#[derive(Debug, Clone)]
pub enum IdentifierParseError {
    /// The identifier had no namespace; it holds the identifier in double quotes.
    InvalidIdentifier(String),
    /// A character that is not allowed in a namespace; the string is the path.
    InvalidNamespaceCharacter(String, char),
    /// A character that is not allowed in a path; the string is the path.
    InvalidPathCharacter(String, char),
}

/// Whether `c` is allowed in a namespace under Java Edition's rules: `[0-9a-z_.-]`.
pub open spec fn spec_java_namespace_char(c: char) -> bool {
    ('0' <= c <= '9') || ('a' <= c <= 'z') || c == '_' || c == '-' || c == '.'
}

/// Whether `c` is allowed in a path under Java Edition's rules: `[0-9a-z_.-/]`.
pub open spec fn spec_java_path_char(c: char) -> bool {
    spec_java_namespace_char(c) || c == '/'
}

/// The position of the first occurrence of `c` in `s`, if any.
pub open spec fn spec_find(s: Seq<char>, c: char) -> Option<int> {
    if exists|i: int| 0 <= i < s.len() && s[i] == c {
        Some(choose|i: int| 0 <= i < s.len() && s[i] == c && forall|j: int| 0 <= j < i ==> s[j] != c)
    } else {
        None
    }
}

/// The first character of `s` not allowed by `allowed`, if any.
pub open spec fn spec_first_disallowed(s: Seq<char>, allowed: spec_fn(char) -> bool) -> Option<
    char,
> {
    if exists|i: int| 0 <= i < s.len() && !allowed(s[i]) {
        Some(
            s[choose|i: int|
                0 <= i < s.len() && !allowed(s[i]) && forall|j: int| 0 <= j < i ==> allowed(s[j])],
        )
    } else {
        None
    }
}

/// Find the first occurrence of `c` in `s`.
pub fn find_char(s: &[char], c: char) -> (res: Option<usize>)
    ensures
        match res {
            Some(i) => spec_find(s@, c) == Some(i as int) && i < s@.len() && s@[i as int] == c,
            None => spec_find(s@, c) is None,
        },
{
    let mut i: usize = 0;
    while i < s.len()
        invariant
            i <= s@.len(),
            forall|j: int| 0 <= j < i ==> s@[j] != c,
        decreases s@.len() - i,
    {
        if s[i] == c {
            proof {
                let k = choose|k: int| 0 <= k < s@.len() && s@[k] == c && forall|j: int| 0 <= j < k ==> s@[j] != c;
                assert(k == i as int) by {
                    if k < i {
                        assert(s@[k] != c);
                    } else if k > i {
                        assert(s@[i as int] != c);
                    }
                }
            }
            return Some(i);
        }
        i = i + 1;
    }
    None
}

/// The first character of `s` not allowed in a Java Edition namespace (or, if `path`,
/// a path).
fn first_disallowed_java(s: &[char], path: bool) -> (res: Option<char>)
    ensures
        res == spec_first_disallowed(
            s@,
            if path {
                |c: char| spec_java_path_char(c)
            } else {
                |c: char| spec_java_namespace_char(c)
            },
        ),
{
    let ghost allowed = if path {
        |c: char| spec_java_path_char(c)
    } else {
        |c: char| spec_java_namespace_char(c)
    };
    let mut i: usize = 0;
    while i < s.len()
        invariant
            i <= s@.len(),
            allowed == (if path {
                |c: char| spec_java_path_char(c)
            } else {
                |c: char| spec_java_namespace_char(c)
            }),
            forall|j: int| 0 <= j < i ==> allowed(s@[j]),
        decreases s@.len() - i,
    {
        let c = s[i];
        let ok = ('0' <= c && c <= '9') || ('a' <= c && c <= 'z') || c == '_' || c == '-' || c == '.'
            || (path && c == '/');
        if !ok {
            proof {
                let k = choose|k: int|
                    0 <= k < s@.len() && !allowed(s@[k]) && forall|j: int| 0 <= j < k ==> allowed(s@[j]);
                assert(k == i as int) by {
                    if k < i {
                        assert(allowed(s@[k]));
                    } else if k > i {
                        assert(!allowed(s@[i as int]));
                    }
                }
            }
            return Some(c);
        }
        i = i + 1;
    }
    None
}

/// How `namespace:path` splits into its namespace and path: at the first `:`, or, where there
/// is none, into the default namespace and the whole string.
pub open spec fn spec_split_identifier(s: Seq<char>, default_namespace: Option<Seq<char>>) -> Option<
    (Seq<char>, Seq<char>),
> {
    match spec_find(s, ':') {
        Some(colon) => Some((s.subrange(0, colon), s.subrange(colon + 1, s.len() as int))),
        None => match default_namespace {
            Some(ns) => Some((ns, s)),
            None => None,
        },
    }
}

/// The first fault in the characters of a namespace and a path: `(1, c)` for a character `c`
/// not allowed in the namespace, `(2, c)` for one not allowed in the path.
pub open spec fn spec_identifier_fault(
    namespace: Seq<char>,
    path: Seq<char>,
    java_character_constraints: bool,
) -> Option<(u8, char)> {
    if java_character_constraints {
        match spec_first_disallowed(namespace, |c: char| spec_java_namespace_char(c)) {
            Some(ch) => Some((1u8, ch)),
            None => match spec_first_disallowed(path, |c: char| spec_java_path_char(c)) {
                Some(ch) => Some((2u8, ch)),
                None => None,
            },
        }
    } else if spec_find(namespace, ':') is Some {
        Some((1u8, ':'))
    } else if spec_find(namespace, '/') is Some {
        Some((1u8, '/'))
    } else if spec_find(path, ':') is Some {
        Some((2u8, ':'))
    } else {
        None
    }
}

/// Copy `chars[start..end]`.
fn copy_range(chars: &[char], start: usize, end: usize) -> (res: Vec<char>)
    requires
        start <= end <= chars@.len(),
    ensures
        res@ == chars@.subrange(start as int, end as int),
{
    let mut out: Vec<char> = Vec::new();
    let mut i: usize = start;
    while i < end
        invariant
            start <= i <= end <= chars@.len(),
            out@ =~= chars@.subrange(start as int, i as int),
        decreases end - i,
    {
        out.push(chars[i]);
        i = i + 1;
    }
    out
}

/// `chars` in double quotes.
fn quote_chars(chars: &[char]) -> (res: Vec<char>)
    ensures
        res@ == seq!['"'] + chars@ + seq!['"'],
{
    let mut quoted: Vec<char> = Vec::new();
    quoted.push('"');
    let mut i: usize = 0;
    while i < chars.len()
        invariant
            i <= chars@.len(),
            quoted@ =~= seq!['"'] + chars@.subrange(0, i as int),
        decreases chars@.len() - i,
    {
        quoted.push(chars[i]);
        i = i + 1;
    }
    quoted.push('"');
    assert(chars@.subrange(0, chars@.len() as int) =~= chars@);
    assert(quoted@ =~= seq!['"'] + chars@ + seq!['"']);
    quoted
}

/// The first fault in the characters of a namespace and a path.
fn identifier_fault(namespace: &[char], path: &[char], java_character_constraints: bool) -> (res:
    Option<(u8, char)>)
    ensures
        res == spec_identifier_fault(namespace@, path@, java_character_constraints),
{
    if java_character_constraints {
        match first_disallowed_java(namespace, false) {
            Some(ch) => {
                return Some((1u8, ch));
            },
            None => {},
        }
        match first_disallowed_java(path, true) {
            Some(ch) => Some((2u8, ch)),
            None => None,
        }
    } else if find_char(namespace, ':').is_some() {
        Some((1u8, ':'))
    } else if find_char(namespace, '/').is_some() {
        Some((1u8, '/'))
    } else if find_char(path, ':').is_some() {
        Some((2u8, ':'))
    } else {
        None
    }
}

impl NamespacedIdentifier {
    /// Parse `namespace:path`, splitting at the first `:`. If there is no `:`, the
    /// default namespace of `opts` is used with the whole string as the path, or an error is
    /// returned if there is none. Then the characters of the namespace and path are checked,
    /// with Java Edition's rules or Bedrock Edition's looser ones.
    pub fn parse_string(identifier: String, opts: IdentifierParseOptions) -> (res: Result<
        Self,
        IdentifierParseError,
    >)
        ensures
            ({
                let default_namespace = match opts.default_namespace {
                    Some(ns) => Some(ns@),
                    None => None,
                };
                match spec_split_identifier(identifier@, default_namespace) {
                    None => res matches Err(IdentifierParseError::InvalidIdentifier(q)) && q@
                        == seq!['"'] + identifier@ + seq!['"'],
                    Some((namespace, path)) => match spec_identifier_fault(
                        namespace,
                        path,
                        opts.java_character_constraints,
                    ) {
                        None => res matches Ok(id) && id.namespace@ == namespace && id.path@
                            == path,
                        Some((1u8, ch)) => res matches Err(
                            IdentifierParseError::InvalidNamespaceCharacter(p, c),
                        ) && p@ == path && c == ch,
                        Some((_, ch)) => res matches Err(
                            IdentifierParseError::InvalidPathCharacter(p, c),
                        ) && p@ == path && c == ch,
                    },
                }
            }),
    {
        let chars = chars_of(identifier.as_str());
        let total = chars.len();
        let (namespace, path): (Vec<char>, Vec<char>) = match find_char(chars.as_slice(), ':') {
            Some(colon) => (
                copy_range(chars.as_slice(), 0, colon),
                copy_range(chars.as_slice(), colon + 1, total),
            ),
            None => match opts.default_namespace {
                Some(namespace) => (chars_of(namespace), chars),
                None => {
                    let quoted = quote_chars(chars.as_slice());
                    return Err(
                        IdentifierParseError::InvalidIdentifier(string_from_chars(quoted.as_slice())),
                    );
                },
            },
        };
        let path_string = string_from_chars(path.as_slice());
        match identifier_fault(namespace.as_slice(), path.as_slice(), opts.java_character_constraints) {
            Some((1u8, ch)) => Err(IdentifierParseError::InvalidNamespaceCharacter(path_string, ch)),
            Some((_, ch)) => Err(IdentifierParseError::InvalidPathCharacter(path_string, ch)),
            None => {
                let namespace_string = string_from_chars(namespace.as_slice());
                Ok(
                    NamespacedIdentifier {
                        namespace: boxed_str_from(namespace_string.as_str()),
                        path: boxed_str_from(path_string.as_str()),
                    },
                )
            },
        }
    }
}

// ================================
//  Blocks
// ================================

/// A block in the Universal format, with any further blocks layered in the same position
/// (such as water in a waterlogged block).
#[derive(Debug, PartialEq, Eq, PartialOrd, Ord, Hash)]
pub struct Block {
    pub identifier: NamespacedIdentifier,
    pub properties: BlockProperties,
    pub extra_layers: Vec<Block>,
}

/// The identifier and properties of each block among `layers` and their extra layers, in
/// preorder: each block comes before its own extra layers, which come before its next
/// sibling.
pub open spec fn spec_flattened_layers(layers: Seq<Block>) -> Seq<
    (NamespacedIdentifier, BlockProperties),
>
    decreases layers,
{
    if layers.len() == 0 {
        Seq::empty()
    } else {
        proof {
            assert(decreases_to!(layers => layers[0]));
            assert(decreases_to!(layers[0] => layers[0].extra_layers));
            assert(decreases_to!(layers[0].extra_layers => layers[0].extra_layers@));
        }
        seq![(layers[0].identifier, layers[0].properties)] + spec_flattened_layers(
            layers[0].extra_layers@,
        ) + spec_flattened_layers(layers.drop_first())
    }
}

/// Flattening a concatenation flattens each part.
proof fn lemma_flattened_layers_append(a: Seq<Block>, b: Seq<Block>)
    ensures
        spec_flattened_layers(a + b) == spec_flattened_layers(a) + spec_flattened_layers(b),
    decreases a.len(),
{
    if a.len() == 0 {
        assert(a + b =~= b);
        assert(spec_flattened_layers(a) =~= Seq::empty());
    } else {
        assert((a + b)[0] == a[0]);
        assert((a + b).drop_first() =~= a.drop_first() + b);
        lemma_flattened_layers_append(a.drop_first(), b);
        assert(spec_flattened_layers(a + b) =~= spec_flattened_layers(a) + spec_flattened_layers(b));
    }
}

impl Block {
    pub fn new(
        identifier: NamespacedIdentifier,
        properties: Option<BlockProperties>,
        extra_layers: Option<Vec<Block>>,
    ) -> (res: Self)
        ensures
            res.identifier == identifier,
            match properties {
                Some(p) => res.properties == p,
                None => res.properties@ == Map::<String, BlockProperty>::empty(),
            },
            match extra_layers {
                Some(l) => res.extra_layers@ == l@,
                None => res.extra_layers@.len() == 0,
            },
    {
        let properties = match properties {
            Some(p) => p,
            None => BTreeMap::new(),
        };
        let extra_layers = match extra_layers {
            Some(l) => l,
            None => Vec::new(),
        };
        Block { identifier, properties, extra_layers }
    }

    /// The block `universal_minecraft:air`, with no properties and no extra layers.
    pub fn new_air() -> (res: Self)
        ensures
            res.identifier.namespace@ == UNIVERSAL_NAMESPACE@,
            res.identifier.path@ == "air"@,
            res.properties@ == Map::<String, BlockProperty>::empty(),
            res.extra_layers@.len() == 0,
    {
        Block {
            identifier: NamespacedIdentifier {
                namespace: boxed_str_from(UNIVERSAL_NAMESPACE),
                path: boxed_str_from("air"),
            },
            properties: BTreeMap::new(),
            extra_layers: Vec::new(),
        }
    }

    /// Recursively flattens the `extra_layers` of this block into a single vector (this
    /// block's own `extra_layers`), so that afterwards, the blocks in `extra_layers` have no
    /// extra layers of their own. The order of extra layers is preserved (a block's extra
    /// layers are after that block, and before its next sibling block).
    pub fn flatten_layers(&mut self)
        ensures
            final(self).identifier == old(self).identifier,
            final(self).properties == old(self).properties,
            final(self).extra_layers@.len() == spec_flattened_layers(old(self).extra_layers@).len(),
            forall|i: int|
                0 <= i < final(self).extra_layers@.len() ==> {
                    let layer = #[trigger] final(self).extra_layers@[i];
                    &&& (layer.identifier, layer.properties) == spec_flattened_layers(
                        old(self).extra_layers@,
                    )[i]
                    &&& layer.extra_layers@.len() == 0
                },
    {
        let mut pending: Vec<Block> = Vec::new();
        std::mem::swap(&mut pending, &mut self.extra_layers);
        let ghost all = spec_flattened_layers(pending@);
        let mut queue: VecDeque<Block> = VecDeque::new();
        while pending.len() > 0
            invariant
                spec_flattened_layers(pending@ + queue@) == all,
            decreases pending@.len(),
        {
            let ghost before = pending@ + queue@;
            let block = pending.pop().unwrap();
            queue.push_front(block);
            assert(pending@ + queue@ =~= before);
        }
        assert(queue@ =~= pending@ + queue@);
        let mut flat: Vec<Block> = Vec::new();
        while queue.len() > 0
            invariant
                all == flat@.map_values(|b: Block| (b.identifier, b.properties)) + spec_flattened_layers(
                    queue@,
                ),
                forall|i: int| 0 <= i < flat@.len() ==> (#[trigger] flat@[i]).extra_layers@.len() == 0,
            decreases spec_flattened_layers(queue@).len(),
        {
            let ghost before = queue@;
            let block = queue.pop_front().unwrap();
            let Block { identifier, properties, extra_layers } = block;
            let mut inner = extra_layers;
            let ghost rest = queue@;
            let ghost children = inner@;
            assert(before =~= seq![block] + rest);
            assert(before.drop_first() =~= rest);
            while inner.len() > 0
                invariant
                    inner@ == children.subrange(0, inner@.len() as int),
                    queue@ == children.subrange(inner@.len() as int, children.len() as int) + rest,
                    inner@.len() <= children.len(),
                decreases inner@.len(),
            {
                let ghost n = inner@.len();
                let child = inner.pop().unwrap();
                queue.push_front(child);
                assert(queue@ =~= children.subrange(n - 1, children.len() as int) + rest);
            }
            assert(queue@ =~= children + rest);
            proof {
                lemma_flattened_layers_append(children, rest);
            }
            let ghost old_flat = flat@;
            flat.push(Block { identifier, properties, extra_layers: Vec::new() });
            assert(flat@.map_values(|b: Block| (b.identifier, b.properties)) =~= old_flat.map_values(
                |b: Block| (b.identifier, b.properties),
            ).push((identifier, properties)));
        }
        assert(all =~= flat@.map_values(|b: Block| (b.identifier, b.properties)));
        self.extra_layers = flat;
    }
}

} // verus!
