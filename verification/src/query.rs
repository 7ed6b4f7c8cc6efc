//! The query interface adapter: a read-only, secret-gated listing of
//! the whole registry, shaped as a single page of cards.

use vstd::prelude::*;
use crate::registry::Card;
use crate::registry::Registry;

verus! {

/// One page of the card listing.
pub struct Page {
    pub cards: Vec<Card>,
}

/// The full listing: an ordered sequence of pages. Exactly one page is
/// produced today; the shape leaves room for pagination.
pub struct CardList {
    pub pages: Vec<Page>,
}

/// The supplied secret was missing or did not equal the configured one.
pub struct AuthError {}

/// Whether the supplied secret exactly equals the configured one.
pub open spec fn secret_matches(supplied: Option<&String>, configured: Seq<char>) -> bool {
    match supplied {
        Some(s) => s@ == configured,
        None => false,
    }
}

/// The authentication gate: exact string equality of the supplied
/// secret against the configured one; a missing secret never passes.
pub fn check_secret(supplied: Option<&String>, configured: &String) -> (r: bool)
    ensures
        r == secret_matches(supplied, configured@),
{
    match supplied {
        Some(s) => *s == *configured,
        None => false,
    }
}

/// The secret-gated listing: with the exact configured secret, the
/// whole registry as a single page; with a missing or wrong secret, an
/// authentication failure and no registry contents at all.
pub fn list_cards(reg: &Registry, supplied: Option<&String>, configured: &String) -> (r: Result<
    CardList,
    AuthError,
>)
    requires
        reg.wf(),
    ensures
        r is Ok <==> secret_matches(supplied, configured@),
        r matches Ok(cl) ==> {
            &&& cl.pages@.len() == 1
            &&& cl.pages@[0].cards@.len() == reg.owners().len()
            &&& forall|i: int|
                0 <= i < reg.owners().len() ==> reg@.contains_key(#[trigger] reg.owners()[i])
                    && cl.pages@[0].cards@[i]@ == reg@[reg.owners()[i]]
        },
{
    let ok = check_secret(supplied, configured);
    if !ok {
        return Err(AuthError {});
    }
    let cards = reg.list();
    let mut pages: Vec<Page> = Vec::new();
    pages.push(Page { cards });
    proof {
        assert forall|i: int|
            0 <= i < reg.owners().len() implies reg@.contains_key(#[trigger] reg.owners()[i])
            && pages@[0].cards@[i]@ == reg@[reg.owners()[i]] by {
            assert(cards@[i]@ == reg@[reg.owners()[i]]);
            assert(pages@[0].cards@[i] == cards@[i]);
        }
    }
    Ok(CardList { pages })
}

} // verus!
