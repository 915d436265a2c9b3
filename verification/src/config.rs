//! What the daemon is told on its command line.

use vstd::prelude::*;

use crate::numeral::{
    argument_value, decimal, hex_digits, hexadecimal, numeral, read_argument,
};

verus! {

/// Which keyboard to look for, which control to divert and which key to post.
#[derive(Clone, Copy, PartialEq, Eq, Debug)]
pub struct Config {
    pub vendor_id: i32,
    pub product_id: i32,
    /// The control to divert.
    pub cid: u16,
    /// The virtual key code to post.
    pub key_code: u16,
    /// Whether to log every keypress.
    pub verbose: bool,
}

/// The universal MX Keys, its F4 control, and F18, which no keyboard has.
pub open spec fn default_config() -> Config {
    Config { vendor_id: 0x046D, product_id: 0xB35B, cid: 0x00E1, key_code: 79, verbose: false }
}

impl Default for Config {
    fn default() -> (cfg: Self)
        ensures
            cfg == default_config(),
    {
        Config { vendor_id: 0x046D, product_id: 0xB35B, cid: 0x00E1, key_code: 79, verbose: false }
    }
}

/// What the command line may hold, and what holds where it is silent.
pub open spec fn usage_text() -> Seq<char> {
    let cfg = default_config();
    "mxkeys-f4d — divert one Logitech HID++ control and post a key for it\n\n"@
        + "  --vendor <id>    default 0x"@ + hex_digits(cfg.vendor_id as nat, 4) + "\n"@
        + "  --product <id>   default 0x"@ + hex_digits(cfg.product_id as nat, 4)
        + " (MX Keys)\n"@ + "  --cid <id>       control to divert, default 0x"@ + hex_digits(
        cfg.cid as nat,
        4,
    ) + " (F4)\n"@ + "  --key <code>     virtual key code to post, default "@ + numeral(
        cfg.key_code as nat,
        10,
    ) + " (F18)\n"@ + "  --verbose        log every keypress"@
}

/// What the command line may hold, and what holds where it is silent.
pub fn usage() -> (text: String)
    ensures
        text@ == usage_text(),
{
    let cfg: Config = Config::default();
    let mut text: String =
        "mxkeys-f4d — divert one Logitech HID++ control and post a key for it\n\n".to_string();
    text.append("  --vendor <id>    default 0x");
    text.append(hexadecimal(cfg.vendor_id as u32, 4).as_str());
    text.append("\n");
    text.append("  --product <id>   default 0x");
    text.append(hexadecimal(cfg.product_id as u32, 4).as_str());
    text.append(" (MX Keys)\n");
    text.append("  --cid <id>       control to divert, default 0x");
    text.append(hexadecimal(cfg.cid as u32, 4).as_str());
    text.append(" (F4)\n");
    text.append("  --key <code>     virtual key code to post, default ");
    text.append(decimal(cfg.key_code as u32).as_str());
    text.append(" (F18)\n");
    text.append("  --verbose        log every keypress");
    text
}

/// What an argument asks for.
#[derive(Clone, Copy, PartialEq, Eq, Debug)]
pub enum Flag {
    Verbose,
    Help,
    Vendor,
    Product,
    Cid,
    Key,
    /// Nothing that the daemon knows.
    Unknown,
}

/// What the argument `arg` asks for.
pub open spec fn flag_of(arg: Seq<char>) -> Flag {
    if arg == "--verbose"@ || arg == "-v"@ {
        Flag::Verbose
    } else if arg == "--help"@ || arg == "-h"@ {
        Flag::Help
    } else if arg == "--vendor"@ {
        Flag::Vendor
    } else if arg == "--product"@ {
        Flag::Product
    } else if arg == "--cid"@ {
        Flag::Cid
    } else if arg == "--key"@ {
        Flag::Key
    } else {
        Flag::Unknown
    }
}

/// Whether the argument behind this one is its value.
pub open spec fn takes_value(flag: Flag) -> bool {
    flag is Vendor || flag is Product || flag is Cid || flag is Key
}

/// The low 16 bits of `v`, as an unsigned number.
pub open spec fn wrap_u16(v: int) -> u16 {
    (v % 0x1_0000) as u16
}

/// The low 32 bits of `v`, as a signed number.
pub open spec fn wrap_i32(v: int) -> i32 {
    ((v + 0x8000_0000) % 0x1_0000_0000 - 0x8000_0000) as i32
}

/// `cfg` after `flag` came with the value `value`. A value that is missing, or
/// no number, changes nothing.
pub open spec fn configured(cfg: Config, flag: Flag, value: Option<int>) -> Config {
    match (flag, value) {
        (Flag::Vendor, Some(v)) => Config { vendor_id: wrap_i32(v), ..cfg },
        (Flag::Product, Some(v)) => Config { product_id: wrap_i32(v), ..cfg },
        (Flag::Cid, Some(v)) => Config { cid: wrap_u16(v), ..cfg },
        (Flag::Key, Some(v)) => Config { key_code: wrap_u16(v), ..cfg },
        (Flag::Verbose, _) => Config { verbose: true, ..cfg },
        _ => cfg,
    }
}

/// What a command line comes to.
pub struct Options {
    pub cfg: Config,
    /// The arguments that mean nothing, in their order.
    pub unknown: Seq<Seq<char>>,
    /// Whether help was asked for.
    pub help: bool,
}

/// What the arguments `args` make of the configuration `cfg`. They are read
/// from left to right, and no further than a request for help.
pub open spec fn options(args: Seq<Seq<char>>, cfg: Config) -> Options
    decreases args.len(),
{
    if args.len() == 0 {
        Options { cfg, unknown: seq![], help: false }
    } else {
        let flag = flag_of(args[0]);
        if flag is Help {
            Options { cfg, unknown: seq![], help: true }
        } else if flag is Unknown {
            let rest = options(args.skip(1), cfg);
            Options { unknown: seq![args[0]] + rest.unknown, ..rest }
        } else if !takes_value(flag) {
            options(args.skip(1), configured(cfg, flag, None))
        } else if args.len() == 1 {
            Options { cfg, unknown: seq![], help: false }
        } else {
            options(args.skip(2), configured(cfg, flag, argument_value(args[1])))
        }
    }
}

/// The texts of a list of strings.
pub open spec fn texts(strings: Seq<String>) -> Seq<Seq<char>> {
    strings.map_values(|s: String| s@)
}

/// A command line, read.
#[derive(Debug)]
pub struct Arguments {
    pub cfg: Config,
    /// The arguments that mean nothing, in their order, as far as the command
    /// line was read.
    pub unknown: Vec<String>,
    /// Whether help was asked for. Nothing behind that request was read.
    pub help: bool,
}

/// Whether two texts are the same.
fn is_text(arg: &String, text: &str) -> (same: bool)
    ensures
        same == (arg@ == text@),
{
    *arg == text.to_string()
}

/// What the argument `arg` asks for.
fn read_flag(arg: &String) -> (flag: Flag)
    ensures
        flag == flag_of(arg@),
{
    if is_text(arg, "--verbose") || is_text(arg, "-v") {
        Flag::Verbose
    } else if is_text(arg, "--help") || is_text(arg, "-h") {
        Flag::Help
    } else if is_text(arg, "--vendor") {
        Flag::Vendor
    } else if is_text(arg, "--product") {
        Flag::Product
    } else if is_text(arg, "--cid") {
        Flag::Cid
    } else if is_text(arg, "--key") {
        Flag::Key
    } else {
        Flag::Unknown
    }
}

impl Config {
    /// Takes over the value that came with `flag`.
    fn set(&mut self, flag: Flag, value: i64)
        ensures
            *final(self) == configured(*old(self), flag, Some(value as int)),
    {
        assert(value as u16 == value % 0x1_0000) by (bit_vector);
        assert(value as i32 == (value + 0x8000_0000) % 0x1_0000_0000 - 0x8000_0000)
            by (bit_vector);
        match flag {
            Flag::Vendor => self.vendor_id = #[verifier::truncate] (value as i32),
            Flag::Product => self.product_id = #[verifier::truncate] (value as i32),
            Flag::Cid => self.cid = #[verifier::truncate] (value as u16),
            Flag::Key => self.key_code = #[verifier::truncate] (value as u16),
            Flag::Verbose => self.verbose = true,
            _ => {},
        }
    }
}

/// Reads the arguments of the daemon, its own name not among them.
pub fn parse_args(args: &[String]) -> (parsed: Arguments)
    ensures
        parsed.cfg == options(texts(args@), default_config()).cfg,
        texts(parsed.unknown@) == options(texts(args@), default_config()).unknown,
        parsed.help == options(texts(args@), default_config()).help,
{
    let ghost all = texts(args@);
    let ghost whole = options(all, default_config());
    let mut cfg: Config = Config::default();
    let mut unknown: Vec<String> = Vec::new();
    let mut i: usize = 0;
    assert(all.skip(0) =~= all);
    assert(texts(unknown@) + whole.unknown =~= whole.unknown);
    while i < args.len()
        invariant
            i <= args.len(),
            all == texts(args@),
            whole == options(all, default_config()),
            ({
                let rest = options(all.skip(i as int), cfg);
                &&& whole.cfg == rest.cfg
                &&& whole.help == rest.help
                &&& whole.unknown == texts(unknown@) + rest.unknown
            }),
        decreases args.len() - i,
    {
        let ghost rest = all.skip(i as int);
        assert(rest[0] == args@[i as int]@);
        assert(rest.skip(1) =~= all.skip(i + 1));
        let flag: Flag = read_flag(&args[i]);
        match flag {
            Flag::Help => {
                assert(whole.unknown =~= texts(unknown@));
                return Arguments { cfg, unknown, help: true };
            },
            Flag::Unknown => {
                let ghost before = texts(unknown@);
                unknown.push(args[i].clone());
                proof {
                    let tail = options(all.skip(i + 1), cfg).unknown;
                    assert(texts(unknown@) =~= before.push(rest[0]));
                    assert(before + (seq![rest[0]] + tail) =~= texts(unknown@) + tail);
                }
            },
            Flag::Verbose => {
                cfg.verbose = true;
            },
            _ => {
                i = i + 1;
                if i == args.len() {
                    assert(whole.unknown =~= texts(unknown@));
                    return Arguments { cfg, unknown, help: false };
                }
                assert(rest[1] == args@[i as int]@);
                assert(rest.skip(2) =~= all.skip(i + 1));
                if let Some(value) = read_argument(args[i].as_str()) {
                    cfg.set(flag, value);
                }
            },
        }
        i = i + 1;
    }
    assert(whole.unknown =~= texts(unknown@));
    Arguments { cfg, unknown, help: false }
}

/// Whether `args` asks for no help and its last flag, if it takes a value, has
/// one.
pub open spec fn is_complete(args: Seq<Seq<char>>) -> bool
    decreases args.len(),
{
    if args.len() == 0 {
        true
    } else if flag_of(args[0]) is Help {
        false
    } else if takes_value(flag_of(args[0])) {
        args.len() >= 2 && is_complete(args.skip(2))
    } else {
        is_complete(args.skip(1))
    }
}

/// Arguments are read from left to right: what stands behind a complete
/// command line works on what that one came to.
pub proof fn law_arguments_are_read_left_to_right(
    first: Seq<Seq<char>>,
    second: Seq<Seq<char>>,
    cfg: Config,
)
    requires
        is_complete(first),
    ensures
        ({
            let one = options(first, cfg);
            let two = options(second, one.cfg);
            &&& !one.help
            &&& options(first + second, cfg).cfg == two.cfg
            &&& options(first + second, cfg).unknown == one.unknown + two.unknown
            &&& options(first + second, cfg).help == two.help
        }),
    decreases first.len(),
{
    let both = first + second;
    if first.len() == 0 {
        assert(both =~= second);
        assert(options(first, cfg).unknown + options(second, cfg).unknown =~= options(
            second,
            cfg,
        ).unknown);
    } else {
        let flag = flag_of(first[0]);
        assert(both[0] == first[0]);
        if takes_value(flag) {
            assert(both[1] == first[1]);
            assert(both.skip(2) =~= first.skip(2) + second);
            law_arguments_are_read_left_to_right(
                first.skip(2),
                second,
                configured(cfg, flag, argument_value(first[1])),
            );
        } else {
            assert(both.skip(1) =~= first.skip(1) + second);
            let next = if flag is Unknown { cfg } else { configured(cfg, flag, None) };
            law_arguments_are_read_left_to_right(first.skip(1), second, next);
            if flag is Unknown {
                let one = options(first.skip(1), cfg);
                let two = options(second, one.cfg);
                assert(seq![first[0]] + (one.unknown + two.unknown) =~= (seq![first[0]]
                    + one.unknown) + two.unknown);
            }
        }
    }
}

/// Of a flag that is given more than once the last value counts. One that is
/// no number leaves what stood before it.
pub proof fn law_last_value_counts(
    before: Seq<Seq<char>>,
    flag: Seq<char>,
    value: Seq<char>,
    cfg: Config,
)
    requires
        is_complete(before),
        takes_value(flag_of(flag)),
    ensures
        options(before + seq![flag, value], cfg).cfg == configured(
            options(before, cfg).cfg,
            flag_of(flag),
            argument_value(value),
        ),
{
    let last = seq![flag, value];
    law_arguments_are_read_left_to_right(before, last, cfg);
    let known = options(before, cfg).cfg;
    assert(last.skip(2) =~= seq![]);
    assert(options(last, known) == options(
        last.skip(2),
        configured(known, flag_of(flag), argument_value(value)),
    ));
}

/// Nothing behind a request for help is read.
pub proof fn law_nothing_is_read_behind_help(
    before: Seq<Seq<char>>,
    help: Seq<char>,
    after: Seq<Seq<char>>,
    cfg: Config,
)
    requires
        is_complete(before),
        flag_of(help) is Help,
    ensures
        options(before + (seq![help] + after), cfg).help,
        options(before + (seq![help] + after), cfg).cfg == options(before, cfg).cfg,
        options(before + (seq![help] + after), cfg).unknown == options(before, cfg).unknown,
{
    let rest = seq![help] + after;
    law_arguments_are_read_left_to_right(before, rest, cfg);
    assert(rest[0] == help);
    assert(options(before, cfg).unknown + seq![] =~= options(before, cfg).unknown);
}

/// Arguments that mean nothing change nothing, and all of them are named.
pub proof fn law_unknown_arguments_change_nothing(args: Seq<Seq<char>>, cfg: Config)
    requires
        forall|i: int| 0 <= i < args.len() ==> flag_of(#[trigger] args[i]) is Unknown,
    ensures
        options(args, cfg).cfg == cfg,
        options(args, cfg).unknown == args,
        !options(args, cfg).help,
    decreases args.len(),
{
    if args.len() > 0 {
        assert forall|i: int| 0 <= i < args.len() - 1 implies flag_of(
            #[trigger] args.skip(1)[i],
        ) is Unknown by {
            assert(args.skip(1)[i] == args[i + 1]);
        }
        law_unknown_arguments_change_nothing(args.skip(1), cfg);
        assert(seq![args[0]] + args.skip(1) =~= args);
    } else {
        assert(args =~= seq![]);
    }
}

/// These arguments ask for something, and no others do.
pub proof fn law_flags_have_these_names(arg: Seq<char>)
    ensures
        flag_of(arg) is Verbose <==> arg == "--verbose"@ || arg == "-v"@,
        flag_of(arg) is Help <==> arg == "--help"@ || arg == "-h"@,
        flag_of(arg) is Vendor <==> arg == "--vendor"@,
        flag_of(arg) is Product <==> arg == "--product"@,
        flag_of(arg) is Cid <==> arg == "--cid"@,
        flag_of(arg) is Key <==> arg == "--key"@,
{
    reveal_strlit("--verbose");
    reveal_strlit("-v");
    reveal_strlit("--help");
    reveal_strlit("-h");
    reveal_strlit("--vendor");
    reveal_strlit("--product");
    reveal_strlit("--cid");
    reveal_strlit("--key");
    assert("--verbose"@[3] == 'e' && "--vendor"@[3] == 'e' && "--verbose"@.len() == 9);
    assert("--vendor"@.len() == 8 && "--product"@.len() == 9 && "--product"@[2] == 'p');
    assert("--verbose"@[2] == 'v' && "--help"@.len() == 6 && "--cid"@.len() == 5);
    assert("--key"@.len() == 5 && "--key"@[2] == 'k' && "--cid"@[2] == 'c');
    assert("-v"@[1] == 'v' && "-h"@[1] == 'h' && "-v"@.len() == 2 && "-h"@.len() == 2);
}

/// What a flag of these four sets, and what it leaves alone, behind whatever
/// command line: the value's low bits, and nothing but its own field. A value
/// that is no number, or is missing, changes nothing at all. Neither is ever
/// taken for an unknown argument or for a request for help.
pub proof fn law_values_go_to_their_fields(
    before: Seq<Seq<char>>,
    flag: Seq<char>,
    value: Seq<char>,
    cfg: Config,
)
    requires
        is_complete(before),
        flag == "--vendor"@ || flag == "--product"@ || flag == "--cid"@ || flag == "--key"@,
    ensures
        ({
            let was = options(before, cfg);
            let now = options(before + seq![flag, value], cfg);
            &&& now.unknown == was.unknown
            &&& !now.help
            &&& now.cfg.verbose == was.cfg.verbose
            &&& flag != "--vendor"@ || argument_value(value) is None ==> now.cfg.vendor_id
                == was.cfg.vendor_id
            &&& flag != "--product"@ || argument_value(value) is None ==> now.cfg.product_id
                == was.cfg.product_id
            &&& flag != "--cid"@ || argument_value(value) is None ==> now.cfg.cid == was.cfg.cid
            &&& flag != "--key"@ || argument_value(value) is None ==> now.cfg.key_code
                == was.cfg.key_code
            &&& argument_value(value) matches Some(v) ==> {
                &&& flag == "--vendor"@ ==> (v - now.cfg.vendor_id) % 0x1_0000_0000 == 0
                &&& flag == "--product"@ ==> (v - now.cfg.product_id) % 0x1_0000_0000 == 0
                &&& flag == "--cid"@ ==> (v - now.cfg.cid) % 0x1_0000 == 0
                &&& flag == "--key"@ ==> (v - now.cfg.key_code) % 0x1_0000 == 0
            }
        }),
        ({
            let was = options(before, cfg);
            let now = options(before + seq![flag], cfg);
            now.cfg == was.cfg && now.unknown == was.unknown && !now.help
        }),
{
    law_flags_have_these_names(flag);
    let last = seq![flag, value];
    let was = options(before, cfg);
    law_arguments_are_read_left_to_right(before, last, cfg);
    law_arguments_are_read_left_to_right(before, seq![flag], cfg);
    assert(last.skip(2) =~= seq![]);
    let set = configured(was.cfg, flag_of(flag), argument_value(value));
    assert(options(last, was.cfg) == options(last.skip(2), set));
    assert(was.unknown + Seq::<Seq<char>>::empty() =~= was.unknown);
}

/// Asking for a log of every keypress does that and nothing else, behind
/// whatever command line.
pub proof fn law_verbose_is_all_it_sets(before: Seq<Seq<char>>, flag: Seq<char>, cfg: Config)
    requires
        is_complete(before),
        flag == "--verbose"@ || flag == "-v"@,
    ensures
        ({
            let was = options(before, cfg);
            let now = options(before + seq![flag], cfg);
            &&& now.cfg == Config { verbose: true, ..was.cfg }
            &&& now.unknown == was.unknown
            &&& !now.help
        }),
{
    law_flags_have_these_names(flag);
    let last = seq![flag];
    let was = options(before, cfg);
    law_arguments_are_read_left_to_right(before, last, cfg);
    assert(last.skip(1) =~= seq![]);
    assert(options(last, was.cfg) == options(last.skip(1), Config { verbose: true, ..was.cfg }));
    assert(was.unknown + Seq::<Seq<char>>::empty() =~= was.unknown);
}

/// An empty command line changes nothing, and the texts of a list are those of
/// its strings, one for one.
pub proof fn law_texts_are_one_for_one(strings: Seq<String>, i: int, cfg: Config)
    ensures
        options(seq![], cfg).cfg == cfg,
        options(seq![], cfg).unknown.len() == 0,
        !options(seq![], cfg).help,
        texts(strings).len() == strings.len(),
        0 <= i < strings.len() ==> texts(strings)[i] == strings[i]@,
{
}

} // verus!
