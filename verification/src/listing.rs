//! A capped list of items with other lines behind it.
use crate::limits::CAP_LIST;
use crate::lines::{join, joined, law_joined_has_parts, push_first, texts};
use crate::report::{hint_text, overflow_lines, push_overflow, TeeRequest};
use crate::text::{decimal, has_text};
use vstd::prelude::*;

verus! {

/// Items of a list, and the other lines.
#[verifier::ext_equal]
pub struct ListingParts {
    pub items: Seq<Seq<char>>,
    pub rest: Seq<Seq<char>>,
}

/// The first items, the number of the others, and the other lines.
pub open spec fn listing_lines(
    p: ListingParts,
    noun: Seq<char>,
    hint: Option<Seq<char>>,
) -> Seq<Seq<char>> {
    let cap = CAP_LIST as int;
    if p.items.len() <= cap {
        p.items + p.rest
    } else {
        p.items.take(cap) + overflow_lines((p.items.len() - cap) as nat, noun, hint) + p.rest
    }
}

/// The items in full where the list is cut, for a file of the given name.
pub open spec fn items_left_out(p: ListingParts, slug: Seq<char>) -> Option<
    (Seq<char>, Seq<char>),
> {
    if p.items.len() > CAP_LIST {
        Some((joined(p.items, "\n"@), slug))
    } else {
        None
    }
}

/// Items of a list, and the other lines.
pub struct Listing {
    pub items: Vec<String>,
    pub rest: Vec<String>,
}

impl View for Listing {
    type V = ListingParts;

    open spec fn view(&self) -> ListingParts {
        ListingParts { items: texts(self.items@), rest: texts(self.rest@) }
    }
}

impl Listing {
    /// The items in full where `lines` cuts them, for a file of the given name.
    pub fn tee_request(&self, slug: &str) -> (r: Option<TeeRequest>)
        ensures
            r is Some <==> items_left_out(self@, slug@) is Some,
            r matches Some(t) ==> items_left_out(self@, slug@) == Some((t.full@, t.slug@)),
            r is Some <==> self.items@.len() > CAP_LIST,
            r matches Some(t) ==> t.full@ == joined(texts(self.items@), "\n"@) && t.slug@ == slug@,
    {
        if self.items.len() > CAP_LIST {
            Some(TeeRequest { full: join(&self.items, "\n"), slug: slug.to_string() })
        } else {
            None
        }
    }

    /// The first items, the number of the others, and the other lines. `noun` says
    /// what the items are, and `hint` points at the file that holds all of them.
    pub fn lines(&self, noun: &str, hint: Option<&str>) -> (r: Vec<String>)
        ensures
            texts(r@) == listing_lines(self@, noun@, hint_text(hint)),
            texts(r@) == listing_lines(
                (ListingParts { items: texts(self.items@), rest: texts(self.rest@) }),
                noun@,
                hint_text(hint),
            ),
    {
        let mut result: Vec<String> = Vec::new();
        push_first(&mut result, &self.items, CAP_LIST);
        if self.items.len() > CAP_LIST {
            push_overflow(&mut result, self.items.len() - CAP_LIST, noun, hint);
        }
        push_first(&mut result, &self.rest, self.rest.len());
        assert(texts(self.rest@).take(self.rest@.len() as int) =~= self@.rest);
        assert(self@.items.take(self@.items.len() as int) =~= self@.items);
        assert(texts(result@) =~= listing_lines(self@, noun@, hint_text(hint)));
        result
    }
}

/// The first items are shown, up to the cap.
pub proof fn law_first_items_are_shown(
    p: ListingParts,
    noun: Seq<char>,
    hint: Option<Seq<char>>,
    k: int,
)
    requires
        0 <= k < p.items.len(),
        k < CAP_LIST,
    ensures
        listing_lines(p, noun, hint)[k] == p.items[k],
        listing_lines(p, noun, hint).len() > k,
{
}

/// The other lines end the listing, however many items there are.
pub proof fn law_rest_ends_listing(p: ListingParts, noun: Seq<char>, hint: Option<Seq<char>>)
    ensures
        p.rest.is_suffix_of(listing_lines(p, noun, hint)),
{
}

/// Where items are hidden, a line says how many.
pub proof fn law_hidden_items_are_counted(
    p: ListingParts,
    noun: Seq<char>,
    hint: Option<Seq<char>>,
)
    requires
        p.items.len() > CAP_LIST,
    ensures
        listing_lines(p, noun, hint)[CAP_LIST as int] == "… +"@ + decimal(
            (p.items.len() - CAP_LIST) as nat,
        ) + " more "@ + noun,
{
}

/// The hint is used only where items are left out.
pub proof fn law_hint_needs_left_out(
    p: ListingParts,
    noun: Seq<char>,
    slug: Seq<char>,
    hint: Option<Seq<char>>,
    other: Option<Seq<char>>,
)
    requires
        items_left_out(p, slug) is None,
    ensures
        listing_lines(p, noun, hint) == listing_lines(p, noun, other),
{
}

/// Where items are hidden, the file holds all of them.
pub proof fn law_hidden_items_are_filed(p: ListingParts, slug: Seq<char>, k: int)
    requires
        p.items.len() > CAP_LIST,
        0 <= k < p.items.len(),
    ensures
        items_left_out(p, slug) is Some,
        has_text(items_left_out(p, slug).unwrap().0, p.items[k]),
{
    law_joined_has_parts(p.items, "\n"@, k);
}

/// A listing holds the first items, one line for the hidden ones and one for the hint where
/// it is needed, and the other lines, and nothing else: each stands in its place.
pub proof fn law_listing_places(p: ListingParts, noun: Seq<char>, hint: Option<Seq<char>>)
    ensures
        ({
            let all = listing_lines(p, noun, hint);
            let n = p.items.len() as int;
            let cap = CAP_LIST as int;
            &&& n <= cap ==> all == p.items + p.rest
            &&& n > cap && hint is None ==> {
                &&& all.len() == cap + 1 + p.rest.len()
                &&& all.take(cap) == p.items.take(cap)
                &&& all[cap] == "… +"@ + decimal((n - cap) as nat) + " more "@ + noun
                &&& all.skip(cap + 1) == p.rest
            }
            &&& n > cap && hint is Some ==> {
                &&& all.len() == cap + 2 + p.rest.len()
                &&& all.take(cap) == p.items.take(cap)
                &&& all[cap] == "… +"@ + decimal((n - cap) as nat) + " more "@ + noun
                &&& hint == Some(all[cap + 1])
                &&& all.skip(cap + 2) == p.rest
            }
        }),
{
    let all = listing_lines(p, noun, hint);
    let cap = CAP_LIST as int;
    if p.items.len() > cap {
        assert(all.take(cap) =~= p.items.take(cap));
        if hint is None {
            assert(all.skip(cap + 1) =~= p.rest);
        } else {
            assert(all.skip(cap + 2) =~= p.rest);
        }
    }
}

} // verus!
