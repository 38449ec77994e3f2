//! Command-line arguments of the benchmarks.

use vstd::prelude::*;

use crate::text;
use crate::text::ParseFailure;

verus! {

/// Where a benchmark runs and how it reaches the device.
#[derive(Debug, Clone, Copy, PartialEq, Eq, Structural)]
pub enum Runtime {
    /// A native process, through rusb.
    Native,
    /// A WebAssembly guest, through rusb.
    WasmRusb,
    /// A WebAssembly guest, through the `component:usb` interface itself.
    WasmRaw,
}

/// The name under which a runtime is measured unless the user gives another.
pub open spec fn condition_name(runtime: Runtime) -> Seq<char> {
    match runtime {
        Runtime::Native => "native-rusb"@,
        Runtime::WasmRusb => "wasi-rusb"@,
        Runtime::WasmRaw => "wasi-raw-wit"@,
    }
}

/// The default for `--condition`.
pub fn default_condition(runtime: Runtime) -> (name: &'static str)
    ensures
        name@ == condition_name(runtime),
{
    match runtime {
        Runtime::Native => "native-rusb",
        Runtime::WasmRusb => "wasi-rusb",
        Runtime::WasmRaw => "wasi-raw-wit",
    }
}

/// The arguments as texts.
pub open spec fn texts(args: Seq<String>) -> Seq<Seq<char>> {
    args.map_values(|arg: String| arg@)
}

/// What follows the first `name` that is followed by anything.
pub open spec fn named(args: Seq<Seq<char>>, name: Seq<char>) -> Option<Seq<char>>
    decreases args.len(),
{
    if args.len() < 2 {
        None
    } else if args[0] == name {
        Some(args[1])
    } else {
        named(args.skip(1), name)
    }
}

/// A named argument has the value that stands behind the first place of its name; it has none where
/// the name does not stand in front of anything.
pub proof fn law_value_stands_behind_its_name(args: Seq<Seq<char>>, name: Seq<char>, first: int)
    requires
        0 <= first <= args.len() - 1 || (first == 0 && args.len() == 0),
        first < args.len() - 1 ==> args[first] == name,
        forall|j: int| 0 <= j < first ==> #[trigger] args[j] != name,
    ensures
        first < args.len() - 1 ==> named(args, name) == Some(args[first + 1]),
        first >= args.len() - 1 ==> named(args, name) is None,
    decreases args.len(),
{
    if first > 0 {
        let rest = args.skip(1);
        assert(args[0] != name);
        assert forall|j: int| 0 <= j < first - 1 implies #[trigger] rest[j] != name by {
            assert(rest[j] == args[j + 1]);
        }
        law_value_stands_behind_its_name(rest, name, first - 1);
    }
}

/// The runtimes are measured under these names unless the command line gives another.
pub proof fn law_condition_names(args: Seq<Seq<char>>, runtime: Runtime)
    ensures
        named(args, "--condition"@) matches Some(name) ==> condition_of(args, runtime) == name,
        named(args, "--condition"@) is None ==> condition_of(args, runtime) == (match runtime {
            Runtime::Native => "native-rusb"@,
            Runtime::WasmRusb => "wasi-rusb"@,
            Runtime::WasmRaw => "wasi-raw-wit"@,
        }),
{
}

/// The value of a named argument.
pub fn named_arg(args: &[String], name: &str) -> (value: Option<String>)
    ensures
        match value {
            Some(s) => named(texts(args@), name@) == Some(s@),
            None => named(texts(args@), name@) is None,
        },
{
    let mut i: usize = 0;
    assert(texts(args@).skip(0) =~= texts(args@));
    while args.len() - i >= 2
        invariant
            i <= args@.len(),
            named(texts(args@), name@) == named(texts(args@).skip(i as int), name@),
        decreases args@.len() - i,
    {
        if text::same_text(args[i].as_str(), name) {
            return Some(args[i + 1].clone());
        }
        assert(texts(args@).skip(i as int).skip(1) =~= texts(args@).skip(i + 1));
        i += 1;
    }
    None
}

/// Whether `flag` is among the arguments.
pub fn has_flag(args: &[String], flag: &str) -> (found: bool)
    ensures
        found == texts(args@).contains(flag@),
{
    let mut i: usize = 0;
    while i < args.len()
        invariant
            i <= args@.len(),
            forall|j: int| 0 <= j < i ==> texts(args@)[j] != flag@,
        decreases args@.len() - i,
    {
        if text::same_text(args[i].as_str(), flag) {
            assert(texts(args@)[i as int] == flag@);
            return true;
        }
        i += 1;
    }
    false
}

/// The names as texts.
pub open spec fn words(names: Seq<&str>) -> Seq<Seq<char>> {
    names.map_values(|name: &str| name@)
}

/// Argument `i` counts by its place: it is the program's name, or neither the name of an option, nor
/// what follows one, nor a flag.
pub open spec fn is_placed(
    args: Seq<Seq<char>>,
    i: int,
    options: Seq<Seq<char>>,
    flags: Seq<Seq<char>>,
) -> bool {
    i == 0 || (!options.contains(args[i]) && !options.contains(args[i - 1]) && !flags.contains(
        args[i],
    ))
}

/// The arguments that count by their places, the program's name first.
pub open spec fn placed(
    args: Seq<Seq<char>>,
    options: Seq<Seq<char>>,
    flags: Seq<Seq<char>>,
) -> Seq<Seq<char>>
    decreases args.len(),
{
    if args.len() == 0 {
        Seq::empty()
    } else {
        let before = placed(args.drop_last(), options, flags);
        if is_placed(args, args.len() - 1, options, flags) {
            before.push(args.last())
        } else {
            before
        }
    }
}

fn lists(names: &[&str], s: &str) -> (found: bool)
    ensures
        found == words(names@).contains(s@),
{
    let mut i: usize = 0;
    while i < names.len()
        invariant
            i <= names@.len(),
            forall|j: int| 0 <= j < i ==> words(names@)[j] != s@,
        decreases names@.len() - i,
    {
        if text::same_text(names[i], s) {
            assert(words(names@)[i as int] == s@);
            return true;
        }
        i += 1;
    }
    false
}

/// Picks the arguments that count by their places.
pub fn placed_args(args: &[String], options: &[&str], flags: &[&str]) -> (places: Vec<String>)
    ensures
        texts(places@) == placed(texts(args@), words(options@), words(flags@)),
{
    let ghost all = texts(args@);
    let mut places: Vec<String> = Vec::new();
    let mut i: usize = 0;
    assert(texts(places@) =~= placed(all.take(0), words(options@), words(flags@)));
    while i < args.len()
        invariant
            all == texts(args@),
            i <= args@.len(),
            texts(places@) == placed(all.take(i as int), words(options@), words(flags@)),
        decreases args@.len() - i,
    {
        let ghost before = places@;
        let ghost here = all.take(i + 1);
        assert(here.drop_last() =~= all.take(i as int));
        assert(here.last() == args@[i as int]@);
        let taken = i == 0 || (!lists(options, args[i].as_str()) && !lists(
            options,
            args[i - 1].as_str(),
        ) && !lists(flags, args[i].as_str()));
        if taken {
            places.push(args[i].clone());
            assert(texts(places@) =~= texts(before).push(args@[i as int]@));
        }
        i += 1;
    }
    assert(all.take(i as int) =~= all);
    places
}

/// Arguments among which there is no option and no flag all count by their places.
pub proof fn law_plain_arguments_keep_their_places(
    args: Seq<Seq<char>>,
    options: Seq<Seq<char>>,
    flags: Seq<Seq<char>>,
)
    requires
        forall|j: int|
            0 <= j < args.len() ==> !options.contains(#[trigger] args[j]) && !flags.contains(
                args[j],
            ),
    ensures
        placed(args, options, flags) == args,
    decreases args.len(),
{
    if args.len() > 0 {
        let front = args.drop_last();
        assert forall|j: int| 0 <= j < front.len() implies !options.contains(#[trigger] front[j])
            && !flags.contains(front[j]) by {
            assert(front[j] == args[j]);
        }
        law_plain_arguments_keep_their_places(front, options, flags);
        assert(is_placed(args, args.len() - 1, options, flags)) by {
            assert(!options.contains(args[args.len() - 1]));
        }
        assert(placed(args, options, flags) =~= args);
    } else {
        assert(placed(args, options, flags) =~= args);
    }
}

/// A flag may stand anywhere behind the program's name but where the value of an option is due: the
/// arguments that count by their places stay the same.
pub proof fn law_flags_stand_anywhere(
    before: Seq<Seq<char>>,
    flag: Seq<char>,
    behind: Seq<Seq<char>>,
    options: Seq<Seq<char>>,
    flags: Seq<Seq<char>>,
)
    requires
        before.len() > 0,
        flags.contains(flag),
        !options.contains(flag),
        !options.contains(before.last()),
    ensures
        placed(before + seq![flag] + behind, options, flags) == placed(
            before + behind,
            options,
            flags,
        ),
    decreases behind.len(),
{
    let with = before + seq![flag] + behind;
    let without = before + behind;
    if behind.len() == 0 {
        assert(with.drop_last() =~= before);
        assert(without =~= before);
        assert(with.last() == flag);
        assert(!is_placed(with, with.len() - 1, options, flags));
    } else {
        let front = behind.drop_last();
        law_flags_stand_anywhere(before, flag, front, options, flags);
        assert(with.drop_last() =~= before + seq![flag] + front);
        assert(without.drop_last() =~= before + front);
        assert(with.last() == without.last());
        if behind.len() == 1 {
            assert(with[with.len() - 2] == flag);
            assert(without[without.len() - 2] == before.last());
        } else {
            assert(with[with.len() - 2] == behind[behind.len() - 2]);
            assert(without[without.len() - 2] == behind[behind.len() - 2]);
        }
        assert(is_placed(with, with.len() - 1, options, flags) == is_placed(
            without,
            without.len() - 1,
            options,
            flags,
        ));
    }
}

/// An option with its value may stand anywhere behind the program's name: the arguments that count
/// by their places stay the same, and the value is found.
pub proof fn law_options_stand_anywhere(
    before: Seq<Seq<char>>,
    name: Seq<char>,
    value: Seq<char>,
    behind: Seq<Seq<char>>,
    options: Seq<Seq<char>>,
    flags: Seq<Seq<char>>,
)
    requires
        before.len() > 0,
        options.contains(name),
        !options.contains(value),
        !options.contains(before.last()),
    ensures
        placed(before + seq![name, value] + behind, options, flags) == placed(
            before + behind,
            options,
            flags,
        ),
        !before.contains(name) ==> named(before + seq![name, value] + behind, name) == Some(value),
    decreases behind.len(),
{
    let with = before + seq![name, value] + behind;
    let without = before + behind;
    if behind.len() == 0 {
        assert(with.drop_last() =~= before.push(name));
        assert(before.push(name).drop_last() =~= before);
        assert(without =~= before);
        assert(!is_placed(with, with.len() - 1, options, flags));
        assert(!is_placed(before.push(name), before.len() as int, options, flags));
        assert(placed(before.push(name), options, flags) == placed(before, options, flags));
    } else {
        let front = behind.drop_last();
        law_options_stand_anywhere(before, name, value, front, options, flags);
        assert(with.drop_last() =~= before + seq![name, value] + front);
        assert(without.drop_last() =~= before + front);
        assert(with.last() == without.last());
        if behind.len() == 1 {
            assert(with[with.len() - 2] == value);
            assert(without[without.len() - 2] == before.last());
        } else {
            assert(with[with.len() - 2] == behind[behind.len() - 2]);
            assert(without[without.len() - 2] == behind[behind.len() - 2]);
        }
        assert(is_placed(with, with.len() - 1, options, flags) == is_placed(
            without,
            without.len() - 1,
            options,
            flags,
        ));
    }
    if !before.contains(name) {
        lemma_named_behind(before, name, value, behind);
    }
}

proof fn lemma_named_behind(
    before: Seq<Seq<char>>,
    name: Seq<char>,
    value: Seq<char>,
    behind: Seq<Seq<char>>,
)
    requires
        !before.contains(name),
    ensures
        named(before + seq![name, value] + behind, name) == Some(value),
    decreases before.len(),
{
    let all = before + seq![name, value] + behind;
    if before.len() > 0 {
        let rest = before.skip(1);
        assert(before.contains(before[0]));
        assert forall|i: int| 0 <= i < rest.len() implies rest[i] != name by {
            assert(before.contains(before[i + 1]));
        }
        lemma_named_behind(rest, name, value, behind);
        assert(all.skip(1) =~= rest + seq![name, value] + behind);
    }
}

/// The argument at a place, or a default.
pub open spec fn positional(args: Seq<Seq<char>>, i: int, default: Seq<char>) -> Seq<char> {
    if i < args.len() {
        args[i]
    } else {
        default
    }
}

/// The argument at a place, or a default.
pub fn positional_arg(args: &[String], i: usize, default: &str) -> (value: String)
    ensures
        value@ == positional(texts(args@), i as int, default@),
{
    if i < args.len() {
        args[i].clone()
    } else {
        default.to_owned()
    }
}

/// The number that a text says, or a default where it says none that fits.
pub open spec fn number_or(s: Option<Seq<char>>, max: nat, default: nat) -> nat {
    match s {
        Some(s) => match text::unsigned_value(s, 10, max) {
            Ok(n) => n,
            Err(_) => default,
        },
        None => default,
    }
}

/// A number that is written in base ten and fits is taken; one that does not fit, or none at all,
/// leaves the default.
pub proof fn law_written_number_is_taken(n: nat, max: nat, default: nat)
    ensures
        n <= max ==> number_or(Some(text::decimal(n)), max, default) == n,
        n > max ==> number_or(Some(text::decimal(n)), max, default) == default,
        number_or(None, max, default) == default,
{
    if n <= max {
        text::law_decimal_reads_back(n, max);
    } else {
        text::law_decimal_too_large(n, max);
    }
}

/// Reads a number in base ten, falling back to a default.
pub fn number_arg(s: Option<&str>, max: u64, default: u64) -> (n: u64)
    requires
        default <= max,
    ensures
        n <= max,
        n == number_or(
            match s {
                Some(s) => Some(s@),
                None => None,
            },
            max as nat,
            default as nat,
        ),
{
    match s {
        Some(s) => {
            let chars = text::chars_of(s);
            match text::parse_unsigned(chars.as_slice(), 10, max) {
                Ok(n) => n,
                Err(_) => default,
            }
        },
        None => default,
    }
}

/// The argument at a place, where there is one.
pub open spec fn at(args: Seq<Seq<char>>, i: int) -> Option<Seq<char>> {
    if i < args.len() {
        Some(args[i])
    } else {
        None
    }
}

/// Reads the argument at a place as a number, falling back to a default.
pub fn positional_number(args: &[String], i: usize, max: u64, default: u64) -> (n: u64)
    requires
        default <= max,
    ensures
        n <= max,
        n == number_or(at(texts(args@), i as int), max as nat, default as nat),
{
    if i < args.len() {
        number_arg(Some(args[i].as_str()), max, default)
    } else {
        number_arg(None, max, default)
    }
}

/// Reads a named argument as a number, falling back to a default.
pub fn named_number(args: &[String], name: &str, max: u64, default: u64) -> (n: u64)
    requires
        default <= max,
    ensures
        n <= max,
        n == number_or(named(texts(args@), name@), max as nat, default as nat),
{
    match named_arg(args, name) {
        Some(s) => number_arg(Some(s.as_str()), max, default),
        None => number_arg(None, max, default),
    }
}

/// Why a text is not `VID:PID`.
#[derive(Debug, Clone, Copy, PartialEq, Eq, Structural)]
pub enum VidPidError {
    /// There is no colon.
    NoColon,
    /// What stands before the colon is not a vendor number.
    Vid(ParseFailure),
    /// What stands behind the colon is not a product number.
    Pid(ParseFailure),
}

/// What a text says as `VID:PID`: hexadecimal numbers of at most sixteen bits before and behind the
/// first colon, with white space around them or not.
pub open spec fn vid_pid_of(s: Seq<char>) -> Result<(u16, u16), VidPidError> {
    let colon = text::first_at(s, ':');
    if colon == s.len() {
        Err(VidPidError::NoColon)
    } else {
        match text::unsigned_value(text::trimmed(s.take(colon)), 16, 0xffff) {
            Err(failure) => Err(VidPidError::Vid(failure)),
            Ok(vid) => match text::unsigned_value(text::trimmed(s.skip(colon + 1)), 16, 0xffff) {
                Err(failure) => Err(VidPidError::Pid(failure)),
                Ok(pid) => Ok((vid as u16, pid as u16)),
            },
        }
    }
}

/// `VID:PID` is a vendor before the first colon and a product behind it, both hexadecimal. A fault in
/// the vendor counts before one in the product; a text without a colon names nothing.
pub proof fn law_vendor_comes_first(vendor: Seq<char>, product: Seq<char>)
    requires
        !vendor.contains(':'),
    ensures
        ({
            let v = text::unsigned_value(text::trimmed(vendor), 16, 0xffff);
            let p = text::unsigned_value(text::trimmed(product), 16, 0xffff);
            match vid_pid_of(vendor + seq![':'] + product) {
                Ok((vid, pid)) => {
                    &&& v == Ok::<nat, ParseFailure>(vid as nat)
                    &&& p == Ok::<nat, ParseFailure>(pid as nat)
                },
                Err(VidPidError::Vid(failure)) => v == Err::<nat, ParseFailure>(failure),
                Err(VidPidError::Pid(failure)) => v is Ok && p == Err::<nat, ParseFailure>(failure),
                Err(VidPidError::NoColon) => false,
            }
        }),
        vid_pid_of(vendor) == Err::<(u16, u16), VidPidError>(VidPidError::NoColon),
{
    text::law_first_at_splits(vendor, ':', product);
    text::law_first_at_misses(vendor, ':');
    text::lemma_unsigned_fits(text::trimmed(vendor), 16, 0xffff);
    text::lemma_unsigned_fits(text::trimmed(product), 16, 0xffff);
}

/// Reads `VID:PID`.
pub fn parse_vid_pid(s: &str) -> (result: Result<(u16, u16), VidPidError>)
    ensures
        result == vid_pid_of(s@),
{
    let chars = text::chars_of(s);
    let all = chars.as_slice();
    assert(all@.skip(0) =~= all@);
    let colon = text::find_char(all, ':', 0);
    if colon == all.len() {
        return Err(VidPidError::NoColon);
    }
    let vid_text = vstd::slice::slice_subrange(all, 0, colon);
    let pid_text = vstd::slice::slice_subrange(all, colon + 1, all.len());
    assert(vid_text@ =~= s@.take(colon as int));
    assert(pid_text@ =~= s@.skip(colon + 1));
    match text::parse_unsigned(text::trim(vid_text), 16, 0xffff) {
        Err(failure) => Err(VidPidError::Vid(failure)),
        Ok(vid) => match text::parse_unsigned(text::trim(pid_text), 16, 0xffff) {
            Err(failure) => Err(VidPidError::Pid(failure)),
            Ok(pid) => Ok((vid as u16, pid as u16)),
        },
    }
}

/// `s` without a `0` and then `letter` at its start, as often as they stand there.
pub open spec fn without_prefix(s: Seq<char>, letter: char) -> Seq<char>
    decreases s.len(),
{
    if s.len() >= 2 && s[0] == '0' && s[1] == letter {
        without_prefix(s.skip(2), letter)
    } else {
        s
    }
}

/// What a text says as a hexadecimal byte, with `0x` or `0X` in front or not.
pub open spec fn hex_byte_of(s: Seq<char>) -> Result<nat, ParseFailure> {
    text::unsigned_value(without_prefix(without_prefix(s, 'x'), 'X'), 16, 0xff)
}

/// A byte in hexadecimal digits reads as itself, bare or behind `0x` or `0X`.
pub proof fn law_hex_byte_with_prefix_or_without(b: u8)
    ensures
        hex_byte_of(text::hex_byte(b)) == Ok::<nat, ParseFailure>(b as nat),
        hex_byte_of(seq!['0', 'x'] + text::hex_byte(b)) == Ok::<nat, ParseFailure>(b as nat),
        hex_byte_of(seq!['0', 'X'] + text::hex_byte(b)) == Ok::<nat, ParseFailure>(b as nat),
{
    let s = text::hex_byte(b);
    text::law_hex_byte_by_place(b);
    reveal_with_fuel(without_prefix, 2);
    assert(s[1] != 'x' && s[1] != 'X');
    assert((seq!['0', 'x'] + s).skip(2) =~= s);
    assert((seq!['0', 'X'] + s).skip(2) =~= s);
    assert(without_prefix(seq!['0', 'x'] + s, 'x') == s);
    assert((seq!['0', 'X'] + s)[1] == 'X');
    assert(without_prefix(seq!['0', 'X'] + s, 'x') == seq!['0', 'X'] + s);
}

fn skip_prefix(s: &[char], letter: char, from: usize) -> (at: usize)
    requires
        from <= s@.len(),
    ensures
        from <= at <= s@.len(),
        s@.skip(at as int) == without_prefix(s@.skip(from as int), letter),
    decreases s@.len() - from,
{
    if s.len() - from >= 2 && s[from] == '0' && s[from + 1] == letter {
        assert(s@.skip(from as int).skip(2) =~= s@.skip(from + 2));
        skip_prefix(s, letter, from + 2)
    } else {
        from
    }
}

/// Reads a hexadecimal byte.
pub fn parse_hex_u8(s: &str) -> (result: Result<u8, ParseFailure>)
    ensures
        match result {
            Ok(byte) => hex_byte_of(s@) == Ok::<nat, ParseFailure>(byte as nat),
            Err(failure) => hex_byte_of(s@) == Err::<nat, ParseFailure>(failure),
        },
{
    let chars = text::chars_of(s);
    let all = chars.as_slice();
    assert(all@.skip(0) =~= all@);
    let lower = skip_prefix(all, 'x', 0);
    let upper = skip_prefix(all, 'X', lower);
    let digits = vstd::slice::slice_subrange(all, upper, all.len());
    assert(digits@ =~= all@.skip(upper as int));
    match text::parse_unsigned(digits, 16, 0xff) {
        Ok(byte) => Ok(byte as u8),
        Err(failure) => Err(failure),
    }
}

/// The named argument where it is there, the runtime's own name otherwise.
pub open spec fn condition_of(args: Seq<Seq<char>>, runtime: Runtime) -> Seq<char> {
    match named(args, "--condition"@) {
        Some(name) => name,
        None => condition_name(runtime),
    }
}

/// The name under which to measure.
pub fn condition_arg(args: &[String], runtime: Runtime) -> (name: String)
    ensures
        name@ == condition_of(texts(args@), runtime),
{
    match named_arg(args, "--condition") {
        Some(name) => name,
        None => default_condition(runtime).to_owned(),
    }
}

} // verus!
