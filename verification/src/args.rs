//! Command-line argument resolution.
//!
//! The argument list is folded left to right. A palette flag (`-g` or
//! `--g`) makes the next argument a palette index: parsed as a
//! non-negative integer, kept only when it is in range for the built-in
//! table, reset to 0 when out of range, and ignored (leaving the previous
//! value) when it does not parse. Every other argument fills the first
//! still-empty slot, in order: the invocation name, then the three file
//! paths. The result is the three paths and the palette index; it is
//! withheld when any path is still empty at the end.

use crate::numtext::{parse_usize, spec_parse_usize};
use crate::palette::PALETTE_COUNT;
use crate::text::str_eq;
use vstd::prelude::*;

verus! {

/// The parser's state after consuming a prefix of the argument list.
pub ghost struct ArgState {
    /// The invocation name: the first plain argument, consumed but unused.
    pub exec_name: Seq<char>,
    /// The revision-list file path.
    pub revlist: Seq<char>,
    /// The blame file path.
    pub blame: Seq<char>,
    /// The pretty-printed listing file path.
    pub listing: Seq<char>,
    /// The selected palette index, always within the built-in table.
    pub palette_idx: usize,
    /// Whether the argument just consumed was a palette flag, so that the
    /// next one is its index.
    pub idx_mode: bool,
}

/// The state before any argument: every slot empty, palette 0.
pub open spec fn initial_arg_state() -> ArgState {
    ArgState {
        exec_name: Seq::empty(),
        revlist: Seq::empty(),
        blame: Seq::empty(),
        listing: Seq::empty(),
        palette_idx: 0,
        idx_mode: false,
    }
}

/// One step of the fold: how one argument changes the parser's state.
pub open spec fn arg_step(st: ArgState, arg: Seq<char>) -> ArgState {
    if st.idx_mode {
        ArgState {
            palette_idx: match spec_parse_usize(arg) {
                Some(i) => if i < PALETTE_COUNT {
                    i
                } else {
                    0
                },
                None => st.palette_idx,
            },
            idx_mode: false,
            ..st
        }
    } else if arg == "-g"@ || arg == "--g"@ {
        ArgState { idx_mode: true, ..st }
    } else if st.exec_name.len() == 0 {
        ArgState { exec_name: arg, ..st }
    } else if st.revlist.len() == 0 {
        ArgState { revlist: arg, ..st }
    } else if st.blame.len() == 0 {
        ArgState { blame: arg, ..st }
    } else if st.listing.len() == 0 {
        ArgState { listing: arg, ..st }
    } else {
        st
    }
}

/// The parser's state after the whole argument list.
pub open spec fn arg_fold(args: Seq<Seq<char>>) -> ArgState
    decreases args.len(),
{
    if args.len() == 0 {
        initial_arg_state()
    } else {
        arg_step(arg_fold(args.drop_last()), args.last())
    }
}

/// The resolved arguments: the three input file paths and the palette
/// index.
pub struct Config {
    pub revlist_path: String,
    pub blame_path: String,
    pub listing_path: String,
    pub palette_idx: usize,
}

/// Resolves the argument list, exactly as the fold of [`arg_step`] says:
/// the result holds the folded state's three paths and palette index, and
/// is `None` exactly when one of the paths is still empty.
pub fn parse_args(args: &Vec<String>) -> (r: Option<Config>)
    ensures
        ({
            let st = arg_fold(args.deep_view());
            match r {
                Some(c) => st.revlist.len() > 0 && st.blame.len() > 0 && st.listing.len() > 0
                    && c.revlist_path@ == st.revlist && c.blame_path@ == st.blame
                    && c.listing_path@ == st.listing && c.palette_idx == st.palette_idx,
                None => st.revlist.len() == 0 || st.blame.len() == 0 || st.listing.len() == 0,
            }
        }),
{
    let mut exec_name = String::new();
    let mut revlist = String::new();
    let mut blame = String::new();
    let mut listing = String::new();
    let mut grad_idx: usize = 0;
    let mut idx_mode: bool = false;
    let mut i: usize = 0;
    proof {
        assert(args.deep_view().take(0) =~= Seq::<Seq<char>>::empty());
    }
    while i < args.len()
        invariant
            i <= args.len(),
            args.deep_view().len() == args.len(),
            ({
                let st = arg_fold(args.deep_view().take(i as int));
                exec_name@ == st.exec_name && revlist@ == st.revlist && blame@ == st.blame
                    && listing@ == st.listing && grad_idx == st.palette_idx && idx_mode
                    == st.idx_mode
            }),
        decreases args.len() - i,
    {
        let arg = &args[i];
        proof {
            let cur = args.deep_view().take(i + 1);
            assert(cur.drop_last() =~= args.deep_view().take(i as int));
            assert(cur.last() == args.deep_view()[i as int]);
            assert(args.deep_view()[i as int] == args@[i as int]@);
        }
        if idx_mode {
            match parse_usize(arg.as_str()) {
                Some(v) => {
                    grad_idx = if v < PALETTE_COUNT {
                        v
                    } else {
                        0
                    };
                },
                None => {},
            }
            idx_mode = false;
        } else if str_eq(arg.as_str(), "-g") || str_eq(arg.as_str(), "--g") {
            idx_mode = true;
        } else if exec_name.as_str().is_empty() {
            exec_name = arg.clone();
        } else if revlist.as_str().is_empty() {
            revlist = arg.clone();
        } else if blame.as_str().is_empty() {
            blame = arg.clone();
        } else if listing.as_str().is_empty() {
            listing = arg.clone();
        }
        i = i + 1;
    }
    proof {
        assert(args.deep_view().take(args.len() as int) =~= args.deep_view());
    }
    if revlist.as_str().is_empty() || blame.as_str().is_empty() || listing.as_str().is_empty() {
        return None;
    }
    Some(
        Config {
            revlist_path: revlist,
            blame_path: blame,
            listing_path: listing,
            palette_idx: grad_idx,
        },
    )
}

} // verus!
