//! The host's table of formats, as far as registering relies on it.

use crate::format::FormatView;
use vstd::prelude::*;

verus! {

/// The table after the host has loaded `format`: the identifier of the format
/// is bound to it, in place of whatever the identifier was bound to.
pub open spec fn loaded(table: Map<Seq<char>, FormatView>, format: FormatView) -> Map<
    Seq<char>,
    FormatView,
> {
    table.insert(format.identifier(), format)
}

/// Two formats answer to the same identifier exactly when their repository
/// IDs are the same.
pub proof fn lemma_identifier_tells_repo_id(first: FormatView, second: FormatView)
    ensures
        first.identifier() == second.identifier() <==> first.repo_id == second.repo_id,
{
    let prefix = "github:"@;
    if first.identifier() == second.identifier() {
        assert(first.repo_id =~= first.identifier().subrange(
            prefix.len() as int,
            first.identifier().len() as int,
        ));
        assert(second.repo_id =~= second.identifier().subrange(
            prefix.len() as int,
            second.identifier().len() as int,
        ));
    }
}

/// Registering again under the same repository ID replaces the earlier
/// format: the table is as if only the later one had been loaded, so a later
/// import by that identifier is served by the later format, with its headers.
pub proof fn lemma_later_registration_replaces(
    table: Map<Seq<char>, FormatView>,
    first: FormatView,
    second: FormatView,
    path: Seq<char>,
)
    requires
        first.repo_id == second.repo_id,
    ensures
        loaded(loaded(table, first), second) == loaded(table, second),
        loaded(loaded(table, first), second)[first.identifier()] == second,
        loaded(loaded(table, first), second)[first.identifier()].request(path) == second.request(
            path,
        ),
{
    lemma_identifier_tells_repo_id(first, second);
    assert(loaded(loaded(table, first), second) =~= loaded(table, second));
}

} // verus!
