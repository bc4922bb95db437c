//! The protein books: how much protein the bots of a grid hold together, and
//! how that total moves when a bot enters or leaves.

use vstd::prelude::*;
use crate::creature::Bot;
use crate::space::Vec2i;

verus! {

/// The protein that the bots in `cells` hold, all together.
pub open spec fn stored_protein(cells: Map<Vec2i, Bot>) -> nat
    decreases cells.dom().len(),
    when cells.dom().finite()
{
    if cells.dom().len() == 0 {
        0
    } else {
        let p = cells.dom().choose();
        cells[p].protein as nat + stored_protein(cells.remove(p))
    }
}

/// Taking a bot out lowers the total by what the bot holds.
pub proof fn lemma_stored_remove(cells: Map<Vec2i, Bot>, at: Vec2i)
    requires
        cells.dom().finite(),
        cells.contains_key(at),
    ensures
        stored_protein(cells) == stored_protein(cells.remove(at)) + cells[at].protein,
    decreases cells.dom().len(),
{
    let p = cells.dom().choose();
    if p != at {
        lemma_stored_remove(cells.remove(p), at);
        lemma_stored_remove(cells.remove(at), p);
        assert(cells.remove(p).remove(at) =~= cells.remove(at).remove(p));
    }
}

/// Putting a bot into a free cell raises the total by what the bot holds.
pub proof fn lemma_stored_insert(cells: Map<Vec2i, Bot>, at: Vec2i, bot: Bot)
    requires
        cells.dom().finite(),
        !cells.contains_key(at),
    ensures
        stored_protein(cells.insert(at, bot)) == stored_protein(cells) + bot.protein,
{
    lemma_stored_remove(cells.insert(at, bot), at);
    assert(cells.insert(at, bot).remove(at) =~= cells);
}

} // verus!
