//! Moving the value of one header to another name.

use crate::headers::{first_of, header_entries, header_name_text, remove, try_insert};
use http::header::{HeaderMap, HeaderName, HeaderValue};
use vstd::prelude::*;

verus! {

/// The headers after the first value under `from` has moved to `to`: the
/// name `from` is gone with all its values, and `to` holds that one value in
/// place of whatever it held. Headers without `from` stay as they are.
pub open spec fn renamed(
    entries: Map<Seq<char>, Seq<Seq<u8>>>,
    from: Seq<char>,
    to: Seq<char>,
) -> Map<Seq<char>, Seq<Seq<u8>>> {
    match first_of(entries, from) {
        Some(value) => entries.remove(from).insert(to, seq![value]),
        None => entries,
    }
}

/// A renaming of one header.
pub struct RenameHeader {
    from: HeaderName,
    to: HeaderName,
}

impl RenameHeader {
    /// The renaming of `from` to `to`.
    pub fn new(from: HeaderName, to: HeaderName) -> (r: RenameHeader)
        ensures
            r.from() == header_name_text(from),
            r.to() == header_name_text(to),
    {
        RenameHeader { from, to }
    }

    /// The text of the name that is looked for.
    pub closed spec fn from(&self) -> Seq<char> {
        header_name_text(self.from)
    }

    /// The text of the name that takes its place.
    pub closed spec fn to(&self) -> Seq<char> {
        header_name_text(self.to)
    }

    /// Renames the header in `headers`.
    ///
    /// Headers without the old name are left alone, and the result is `true`.
    /// Otherwise the old name is taken out, and its first value stored under
    /// the new name. The result is `false` when the header map refused that
    /// value: the old name is then gone and the new one is as it was.
    pub fn apply(&self, headers: &mut HeaderMap<HeaderValue>) -> (done: bool)
        ensures
            first_of(header_entries(*old(headers)), self.from()) is None ==> done,
            done ==> header_entries(*final(headers)) == renamed(
                header_entries(*old(headers)),
                self.from(),
                self.to(),
            ),
            !done ==> header_entries(*final(headers)) == header_entries(*old(headers)).remove(
                self.from(),
            ),
    {
        match remove(headers, &self.from) {
            None => {
                assert(header_entries(*headers) =~= header_entries(*old(headers)));
                true
            },
            Some(value) => try_insert(headers, &self.to, value),
        }
    }
}

} // verus!
