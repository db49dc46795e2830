//! The interactive configuration wizard: its state machine and the board
//! list it offers.
//!
//! 1. **Board selection**: pick from the discovered board TOMLs;
//! 2. **Per-board config**: stack ID and Modbus slave ID;
//! 3. **Server settings**: host, port, health port, addressing mode;
//! 4. **I²C tuning**: recovery thresholds, relay verification, logging;
//! 5. **Review & save**: preview the generated TOML and write it.
//!
//! Drawing, the terminal and the file system are the application's part.
use vstd::prelude::*;
use vstd::string::StringExecFns;

use crate::board_def::{BoardDef, ChannelConfig};
use crate::ranking::{sort_ranked, spec_ranked, Ranked};
use crate::text::{
    decimal, join, lemma_text_less_asym, lemma_text_less_total, lemma_text_less_trans,
    spec_decimal, spec_join, spec_text_less, strings_view, text_less,
};

pub mod app;
pub mod install;

verus! {

/// A board offered by the wizard.
#[derive(Debug)]
pub struct AvailableBoard {
    /// Short name from the file name (e.g. `megaind`).
    pub slug: String,
    /// Human-readable name from the definition.
    pub display_name: String,
    /// Whether the file lies in the `experimental/` directory.
    pub experimental: bool,
    /// The parsed definition.
    pub def: BoardDef,
    /// Capability summary (see [`summarize_capabilities`]).
    pub capabilities: String,
}

impl AvailableBoard {
    /// Whether this board is listed before `other`: production boards
    /// before experimental ones, then by slug.
    pub fn listed_before(&self, other: &AvailableBoard) -> (b: bool)
        ensures
            b == ((!self.experimental && other.experimental) || (self.experimental
                == other.experimental && spec_text_less(self.slug@, other.slug@))),
    {
        if self.experimental != other.experimental {
            !self.experimental
        } else {
            text_less(self.slug.as_str(), other.slug.as_str())
        }
    }
}

impl Ranked for AvailableBoard {
    open spec fn ranks_before(&self, other: &Self) -> bool {
        (!self.experimental && other.experimental) || (self.experimental == other.experimental
            && spec_text_less(self.slug@, other.slug@))
    }

    fn listed_first(&self, other: &Self) -> (b: bool) {
        self.listed_before(other)
    }

    proof fn lemma_ranking(a: &Self, b: &Self, c: &Self) {
        lemma_text_less_asym(a.slug@, b.slug@);
        if !b.ranks_before(a) && !c.ranks_before(b) && c.ranks_before(a) {
            if a.experimental == b.experimental && b.experimental == c.experimental {
                if a.slug@ != b.slug@ {
                    lemma_text_less_total(a.slug@, b.slug@);
                    if b.slug@ != c.slug@ {
                        lemma_text_less_total(b.slug@, c.slug@);
                        lemma_text_less_trans(a.slug@, b.slug@, c.slug@);
                        lemma_text_less_asym(c.slug@, a.slug@);
                    } else {
                        lemma_text_less_asym(a.slug@, c.slug@);
                    }
                }
            }
        }
    }
}

/// The offered boards in listing order: production boards before
/// experimental ones, each by slug.
pub fn sort_offered(boards: Vec<AvailableBoard>) -> (r: Vec<AvailableBoard>)
    ensures
        r@.to_multiset() == boards@.to_multiset(),
        spec_ranked(r@),
{
    sort_ranked(boards)
}

/// `"<n><suffix>"` for a set count, nothing otherwise.
pub open spec fn spec_cap_item(o: Option<usize>, suffix: Seq<char>) -> Seq<Seq<char>> {
    match o {
        Some(n) => seq![spec_decimal(n as nat) + suffix],
        None => Seq::empty(),
    }
}

/// The capability items of a channel configuration, in a fixed order.
pub open spec fn spec_cap_items(ch: ChannelConfig) -> Seq<Seq<char>> {
    spec_cap_item(ch.relays, " relays"@) + spec_cap_item(ch.opto_inputs, " opto-in"@)
        + spec_cap_item(ch.analog_4_20ma_inputs, "× 4-20mA in"@) + spec_cap_item(
        ch.analog_0_10v_inputs,
        "× 0-10V in"@,
    ) + spec_cap_item(ch.od_outputs, " OD-out"@) + spec_cap_item(
        ch.analog_0_10v_outputs,
        "× 0-10V out"@,
    ) + spec_cap_item(ch.analog_4_20ma_outputs, "× 4-20mA out"@)
}

fn push_cap_item(items: &mut Vec<String>, o: Option<usize>, suffix: &str)
    ensures
        strings_view(final(items)@) == strings_view(old(items)@) + spec_cap_item(o, suffix@),
{
    let ghost before = items@;
    match o {
        Some(n) => {
            let mut s = decimal(n as u64);
            s.append(suffix);
            items.push(s);
            proof {
                assert(strings_view(items@) =~= strings_view(before) + spec_cap_item(o, suffix@));
            }
        },
        None => {
            proof {
                assert(strings_view(items@) =~= strings_view(before) + spec_cap_item(o, suffix@));
            }
        },
    }
}

/// A one-line summary of a board's channels, e.g.
/// `8 opto-in, 8× 4-20mA in, 4× 0-10V in`.
pub fn summarize_capabilities(def: &BoardDef) -> (s: String)
    ensures
        s@ == spec_join(spec_cap_items(def.channels), ", "@),
{
    let ch = &def.channels;
    let mut items: Vec<String> = Vec::new();
    proof {
        assert(strings_view(items@) =~= Seq::empty());
    }
    push_cap_item(&mut items, ch.relays, " relays");
    push_cap_item(&mut items, ch.opto_inputs, " opto-in");
    push_cap_item(&mut items, ch.analog_4_20ma_inputs, "× 4-20mA in");
    push_cap_item(&mut items, ch.analog_0_10v_inputs, "× 0-10V in");
    push_cap_item(&mut items, ch.od_outputs, " OD-out");
    push_cap_item(&mut items, ch.analog_0_10v_outputs, "× 0-10V out");
    push_cap_item(&mut items, ch.analog_4_20ma_outputs, "× 4-20mA out");
    proof {
        assert(strings_view(items@) =~= spec_cap_items(def.channels));
    }
    join(items.as_slice(), ", ")
}

} // verus!
