//! Start-up decisions of the gateway: which boards to load, where each
//! definition comes from, which stack level each board sits on, and the
//! texts of the heartbeat that are not measurements.
//!
//! Reading files, opening the bus and logging are the application's part.
use vstd::prelude::*;
use vstd::string::StringExecFns;

use crate::board_def::{str_is, BoardDef};
use crate::databank::{COIL_COUNT, DataBank, DISCRETE_INPUT_COUNT};
use crate::registers::{OD_CHANNELS, OPTO_CHANNELS};
use crate::text::{push_char, spec_lowercase, spec_text_less, strings_view, text_less, to_lowercase};

verus! {

/// The board types to load: `megaind` and `relay16` when none is named,
/// else the named ones in lower case, in order.
pub open spec fn spec_board_types(boards: Seq<Seq<char>>) -> Seq<Seq<char>> {
    if boards.len() == 0 {
        seq!["megaind"@, "relay16"@]
    } else {
        boards.map_values(|b: Seq<char>| spec_lowercase(b))
    }
}

/// The board types to load.
pub fn board_types(boards: &[String]) -> (types: Vec<String>)
    ensures
        strings_view(types@) == spec_board_types(strings_view(boards@)),
{
    let mut types: Vec<String> = Vec::new();
    if boards.len() == 0 {
        types.push(String::from_str("megaind"));
        types.push(String::from_str("relay16"));
        proof {
            assert(strings_view(types@) =~= spec_board_types(strings_view(boards@)));
        }
        return types;
    }
    let ghost bs = strings_view(boards@);
    let mut i: usize = 0;
    while i < boards.len()
        invariant
            i <= boards@.len(),
            bs == strings_view(boards@),
            strings_view(types@) == bs.subrange(0, i as int).map_values(
                |b: Seq<char>| spec_lowercase(b),
            ),
        decreases boards@.len() - i,
    {
        let ghost before = types@;
        let t = to_lowercase(boards[i].as_str());
        assert(strings_view(before).len() == before.len());
        types.push(t);
        proof {
            assert(types@ == before.push(t));
            let want = bs.subrange(0, i + 1).map_values(|b: Seq<char>| spec_lowercase(b));
            let prev = bs.subrange(0, i as int).map_values(|b: Seq<char>| spec_lowercase(b));
            assert forall|k: int| 0 <= k < i + 1 implies #[trigger] strings_view(types@)[k]
                == want[k] by {
                assert(strings_view(types@)[k] == types@[k]@);
                if k < i {
                    assert(types@[k] == before[k]);
                    assert(strings_view(before)[k] == before[k]@);
                    assert(strings_view(before)[k] == prev[k]);
                } else {
                    assert(bs[k] == boards@[k]@);
                }
            }
            assert(strings_view(types@) =~= want);
        }
        i += 1;
    }
    proof {
        assert(bs.subrange(0, bs.len() as int) =~= bs);
    }
    types
}

/// The stack level of a board: the relay stack for I/O-expander boards
/// (protocol `pca9535`), the Industrial stack otherwise.
pub fn stack_for_protocol(protocol: &String, relay_stack: u8, ind_stack: u8) -> (stack: u8)
    ensures
        stack == if protocol@ == "pca9535"@ {
            relay_stack
        } else {
            ind_stack
        },
{
    if str_is(protocol, "pca9535") {
        relay_stack
    } else {
        ind_stack
    }
}

/// Where the definition of a board comes from.
#[derive(Debug)]
pub enum DefinitionChoice {
    /// Load the board's TOML file.
    LoadToml,
    /// Use the compiled-in definition.
    Builtin(BoardDef),
    /// No definition: the message to stop with.
    Missing(String),
}

/// The message when built-in defaults are allowed but none exists for
/// `slug`.
pub open spec fn spec_no_builtin_message(slug: Seq<char>, boards_dir: Seq<char>) -> Seq<char> {
    "No TOML found for '"@ + slug + "' and no built-in defaults available.\nPlace a "@ + slug
        + ".toml in "@ + boards_dir + " or run with --install-boards."@
}

/// The message when the TOML file is missing and built-in defaults are
/// not allowed.
pub open spec fn spec_not_found_message(
    slug: Seq<char>,
    toml_path: Seq<char>,
    boards_dir: Seq<char>,
) -> Seq<char> {
    "Board definition not found: "@ + toml_path + "\nPlace a "@ + slug + ".toml in "@ + boards_dir
        + " or pass --builtin-defaults."@
}

/// Choose the source of board `slug`'s definition: its TOML file at
/// `toml_path` when the file exists; else, with built-in defaults allowed,
/// the compiled-in definition of `megaind`, `relay16` or `relay8`; else a
/// message saying what is missing.
pub fn choose_definition(
    slug: &String,
    toml_path: &str,
    toml_exists: bool,
    builtin_defaults: bool,
    boards_dir: &str,
) -> (c: DefinitionChoice)
    ensures
        toml_exists ==> c is LoadToml,
        !toml_exists && builtin_defaults && slug@ == "megaind"@ ==> (c matches DefinitionChoice::Builtin(
            d,
        ) && crate::board_def::spec_is_default_megaind(d)),
        !toml_exists && builtin_defaults && slug@ == "relay16"@ ==> (c matches DefinitionChoice::Builtin(
            d,
        ) && crate::board_def::spec_is_default_relay16(d)),
        !toml_exists && builtin_defaults && slug@ == "relay8"@ ==> (c matches DefinitionChoice::Builtin(
            d,
        ) && crate::board_def::spec_is_default_relay8(d)),
        !toml_exists && builtin_defaults && slug@ != "megaind"@ && slug@ != "relay16"@ && slug@
            != "relay8"@ ==> (c matches DefinitionChoice::Missing(m) && m@ == spec_no_builtin_message(
            slug@,
            boards_dir@,
        )),
        !toml_exists && !builtin_defaults ==> (c matches DefinitionChoice::Missing(m) && m@
            == spec_not_found_message(slug@, toml_path@, boards_dir@)),
{
    proof {
        reveal_strlit("megaind");
        reveal_strlit("relay16");
        reveal_strlit("relay8");
        assert("megaind"@[0] == 'm' && "relay16"@[0] == 'r' && "relay8"@[0] == 'r');
        assert("relay16"@ != "megaind"@);
        assert("relay8"@ != "megaind"@);
        assert("relay8"@.len() != "relay16"@.len());
    }
    if toml_exists {
        DefinitionChoice::LoadToml
    } else if builtin_defaults {
        if str_is(slug, "megaind") {
            DefinitionChoice::Builtin(BoardDef::default_megaind())
        } else if str_is(slug, "relay16") {
            DefinitionChoice::Builtin(BoardDef::default_relay16())
        } else if str_is(slug, "relay8") {
            DefinitionChoice::Builtin(BoardDef::default_relay8())
        } else {
            let mut m = String::from_str("No TOML found for '");
            m.append(slug.as_str());
            m.append("' and no built-in defaults available.\nPlace a ");
            m.append(slug.as_str());
            m.append(".toml in ");
            m.append(boards_dir);
            m.append(" or run with --install-boards.");
            DefinitionChoice::Missing(m)
        }
    } else {
        let mut m = String::from_str("Board definition not found: ");
        m.append(toml_path);
        m.append("\nPlace a ");
        m.append(slug.as_str());
        m.append(".toml in ");
        m.append(boards_dir);
        m.append(" or pass --builtin-defaults.");
        DefinitionChoice::Missing(m)
    }
}

/// The opto inputs of the heartbeat: input 8 first, input 1 last.
pub open spec fn spec_opto_text(inputs: Seq<bool>) -> Seq<char> {
    Seq::new(
        OPTO_CHANNELS as nat,
        |i: int|
            if inputs[OPTO_CHANNELS - 1 - i] {
                '1'
            } else {
                '0'
            },
    )
}

/// The opto inputs as the heartbeat shows them, input 8 first.
pub fn opto_text(db: &DataBank) -> (s: String)
    ensures
        s@ == spec_opto_text(db.discrete_inputs@),
{
    let mut s = String::new();
    let mut i: usize = 0;
    while i < OPTO_CHANNELS
        invariant
            i <= OPTO_CHANNELS,
            OPTO_CHANNELS <= DISCRETE_INPUT_COUNT,
            s@ == spec_opto_text(db.discrete_inputs@).subrange(0, i as int),
        decreases OPTO_CHANNELS - i,
    {
        let b = db.discrete_inputs[OPTO_CHANNELS - 1 - i];
        push_char(
            &mut s,
            if b {
                '1'
            } else {
                '0'
            },
        );
        i += 1;
        proof {
            assert(s@ =~= spec_opto_text(db.discrete_inputs@).subrange(0, i as int));
        }
    }
    proof {
        assert(spec_opto_text(db.discrete_inputs@).subrange(0, OPTO_CHANNELS as int) =~= spec_opto_text(
            db.discrete_inputs@,
        ));
    }
    s
}

/// Coil `from + i` for `i < n`, as the heartbeat shows them (a coil past
/// the data bank shows as off).
pub open spec fn spec_coil_text(coils: Seq<bool>, from: int, n: int) -> Seq<char> {
    Seq::new(
        n as nat,
        |i: int|
            if from + i < coils.len() && coils[from + i] {
                '1'
            } else {
                '0'
            },
    )
}

/// `n` coils from `from` as the heartbeat shows them.
pub fn coil_text(db: &DataBank, from: usize, n: usize) -> (s: String)
    requires
        from + n <= usize::MAX,
    ensures
        s@ == spec_coil_text(db.coils@, from as int, n as int),
{
    let mut s = String::new();
    let mut i: usize = 0;
    while i < n
        invariant
            i <= n,
            from + n <= usize::MAX,
            s@ == spec_coil_text(db.coils@, from as int, n as int).subrange(0, i as int),
        decreases n - i,
    {
        let on = from + i < COIL_COUNT && db.coils[from + i];
        push_char(
            &mut s,
            if on {
                '1'
            } else {
                '0'
            },
        );
        i += 1;
        proof {
            assert(s@ =~= spec_coil_text(db.coils@, from as int, n as int).subrange(0, i as int));
        }
    }
    proof {
        assert(spec_coil_text(db.coils@, from as int, n as int).subrange(0, n as int) =~= spec_coil_text(
            db.coils@,
            from as int,
            n as int,
        ));
    }
    s
}

/// Whether `t` begins with `p`.
pub open spec fn spec_starts_with(t: Seq<char>, p: Seq<char>) -> bool {
    p.len() <= t.len() && t.subrange(0, p.len() as int) == p
}

/// Number of entries of `names` that begin with `prefix` and sort after
/// `x`.
pub open spec fn spec_newer_count(names: Seq<Seq<char>>, prefix: Seq<char>, x: Seq<char>) -> nat
    decreases names.len(),
{
    if names.len() == 0 {
        0
    } else {
        spec_newer_count(names.drop_last(), prefix, x) + if spec_starts_with(names.last(), prefix)
            && spec_text_less(x, names.last()) {
            1nat
        } else {
            0nat
        }
    }
}

/// Whether rotated log file `x` (one of `names`) is removed when `keep`
/// files are retained: it begins with `prefix` and at least `keep` such
/// files sort after it (date-suffixed names sort by date).
pub open spec fn spec_log_removed(names: Seq<Seq<char>>, prefix: Seq<char>, keep: nat, x: Seq<char>) -> bool {
    spec_starts_with(x, prefix) && spec_newer_count(names, prefix, x) >= keep
}

fn starts_with(t: &String, p: &str) -> (b: bool)
    ensures
        b == spec_starts_with(t@, p@),
{
    let n = p.unicode_len();
    if n > t.unicode_len() {
        return false;
    }
    let head = String::from_str(t.as_str().substring_char(0, n));
    let want = String::from_str(p);
    head == want
}

fn newer_count(names: &[String], prefix: &str, x: &String) -> (n: usize)
    ensures
        n == spec_newer_count(strings_view(names@), prefix@, x@),
{
    let ghost nv = strings_view(names@);
    let mut n: usize = 0;
    let mut i: usize = 0;
    while i < names.len()
        invariant
            i <= names@.len(),
            nv == strings_view(names@),
            n == spec_newer_count(nv.subrange(0, i as int), prefix@, x@),
            n <= i,
        decreases names@.len() - i,
    {
        proof {
            assert(nv.subrange(0, i + 1).drop_last() =~= nv.subrange(0, i as int));
            assert(nv.subrange(0, i + 1).last() == names@[i as int]@);
        }
        if starts_with(&names[i], prefix) && text_less(x.as_str(), names[i].as_str()) {
            n += 1;
        }
        i += 1;
    }
    proof {
        assert(nv.subrange(0, nv.len() as int) =~= nv);
    }
    n
}

/// The rotated log files to delete among the file names `names` of the
/// log directory: those beginning with `prefix` of which at least `keep`
/// newer ones remain, in the order of `names`.
pub fn logs_to_remove(names: &[String], prefix: &str, keep: usize) -> (out: Vec<String>)
    ensures
        strings_view(out@) == strings_view(names@).filter(
            |x: Seq<char>| spec_log_removed(strings_view(names@), prefix@, keep as nat, x),
        ),
{
    let ghost nv = strings_view(names@);
    let ghost keep_it = |x: Seq<char>| spec_log_removed(nv, prefix@, keep as nat, x);
    let mut out: Vec<String> = Vec::new();
    let mut i: usize = 0;
    while i < names.len()
        invariant
            i <= names@.len(),
            nv == strings_view(names@),
            keep_it == (|x: Seq<char>| spec_log_removed(nv, prefix@, keep as nat, x)),
            strings_view(out@) == nv.subrange(0, i as int).filter(keep_it),
        decreases names@.len() - i,
    {
        proof {
            assert(nv.subrange(0, i + 1) =~= nv.subrange(0, i as int).push(names@[i as int]@));
            nv.subrange(0, i as int).lemma_filter_push(names@[i as int]@, keep_it);
        }
        let ghost before = out@;
        if starts_with(&names[i], prefix) && newer_count(names, prefix, &names[i]) >= keep {
            out.push(names[i].clone());
            proof {
                assert(strings_view(out@) =~= strings_view(before).push(names@[i as int]@));
            }
        }
        i += 1;
    }
    proof {
        assert(nv.subrange(0, nv.len() as int) =~= nv);
    }
    out
}

} // verus!
