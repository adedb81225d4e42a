//! What a card shows besides its picture: of a text, how it begins.

use std::collections::HashMap;

use vstd::prelude::*;

use crate::domain::AssetKind;
use crate::fields::{position, position_is_inside, split, split_on, texts};
use crate::text::{chars_of, string_of, trim, trimmed};

verus! {

broadcast use vstd::std_specs::hash::group_hash_axioms;

/// How many characters of a text are shown.
pub const PREVIEW_MAX_CHARS: usize = 48;

/// How many texts are remembered.
pub const PREVIEW_CACHE_CAP: usize = 256;

/// What a card shows besides its picture.
#[derive(Debug, Clone, PartialEq, Eq)]
pub struct TileCardData {
    pub kind: AssetKind,
    /// How a text begins; nothing for any other asset.
    pub preview: String,
}

/// The first line of a text without the blanks around it, cut where it is too long.
pub open spec fn preview(text: Seq<char>) -> Seq<char> {
    let line = trimmed(text.take(position(text, '\n')));
    if line.len() > PREVIEW_MAX_CHARS {
        line.take(PREVIEW_MAX_CHARS as int) + "…"@
    } else {
        line
    }
}

/// How a text begins.
pub fn preview_of(text: &str) -> (r: String)
    ensures
        r@ == preview(text@),
{
    let lines = split_on(text, '\n', 2);
    proof {
        reveal_with_fuel(split, 3);
        assert(texts(lines@).len() == lines@.len());
        position_is_inside(text@, '\n');
        if position(text@, '\n') == text@.len() {
            assert(text@.take(text@.len() as int) =~= text@);
        }
        assert(texts(lines@)[0] == lines@[0]@);
    }
    let line = trim(lines[0].as_str());
    let shown = chars_of(line);
    if shown.len() > PREVIEW_MAX_CHARS {
        line.substring_char(0, PREVIEW_MAX_CHARS).to_owned().concat("…")
    } else {
        line.to_owned()
    }
}

/// What a card needs next.
#[derive(Debug, Clone, PartialEq, Eq)]
pub enum CardStep {
    Ready { card: TileCardData },
    /// The text has to be read.
    Read,
}

/// The cards of a window. How a text begins is remembered, so that it is not read again for
/// every row.
pub struct ResolverCardProvider {
    previews: HashMap<u32, String>,
}

impl ResolverCardProvider {
    /// How the texts that are remembered begin.
    pub closed spec fn known(&self) -> Map<u32, Seq<char>> {
        self.previews@.map_values(|text: String| text@)
    }

    pub fn new() -> (r: ResolverCardProvider)
        ensures
            r.known() == Map::<u32, Seq<char>>::empty(),
    {
        let r = ResolverCardProvider { previews: HashMap::new() };
        assert(r.known() =~= Map::<u32, Seq<char>>::empty());
        r
    }

    /// The card of an asset, where nothing has to be read for it.
    pub fn card_data(&self, kind: AssetKind, id: u32) -> (r: CardStep)
        ensures
            if kind != AssetKind::Text {
                r matches CardStep::Ready { card } && card.kind == kind && card.preview@.len() == 0
            } else if self.known().contains_key(id) {
                r matches CardStep::Ready { card } && card.kind == kind && card.preview@
                    == self.known()[id]
            } else {
                r is Read
            },
    {
        if kind != AssetKind::Text {
            return CardStep::Ready { card: TileCardData { kind, preview: string_of(Vec::new()) } };
        }
        match self.previews.get(&id) {
            Some(text) => CardStep::Ready { card: TileCardData { kind, preview: text.clone() } },
            None => CardStep::Read,
        }
    }

    /// The card of a text that was read: nothing is shown of one that could not be, or is
    /// none. It is remembered, and where too many are, the others are forgotten first.
    pub fn read(&mut self, id: u32, found: Option<(AssetKind, &str)>) -> (r: TileCardData)
        ensures
            r.kind == AssetKind::Text,
            r.preview@ == match found {
                Some((AssetKind::Text, text)) => preview(text@),
                _ => Seq::empty(),
            },
            final(self).known() == (if old(self).known().len() >= PREVIEW_CACHE_CAP {
                Map::empty()
            } else {
                old(self).known()
            }).insert(id, r.preview@),
            old(self).known().len() <= PREVIEW_CACHE_CAP ==> final(self).known().len()
                <= PREVIEW_CACHE_CAP,
    {
        let text = match found {
            Some((kind, text)) if kind == AssetKind::Text => preview_of(text),
            _ => string_of(Vec::new()),
        };
        let ghost before = self.previews@;
        assert(self.known().dom() =~= before.dom());
        if self.previews.len() >= PREVIEW_CACHE_CAP {
            self.previews.clear();
            assert(self.known() =~= Map::<u32, Seq<char>>::empty());
        }
        let ghost known = self.known();
        let preview = text.clone();
        self.previews.insert(id, text);
        assert(self.known() =~= known.insert(id, preview@));
        assert(self.known().dom() =~= known.dom().insert(id));
        TileCardData { kind: AssetKind::Text, preview }
    }
}

/// A preview is never longer than it may be, but for the sign that it was cut.
pub proof fn previews_are_short(text: Seq<char>)
    ensures
        preview(text).len() <= PREVIEW_MAX_CHARS + 1,
{
    reveal_strlit("…");
}

/// A preview is the first line without the white space around it; of a long one the first 48
/// characters, with a sign that there is more.
pub proof fn previews_show_the_first_line(line: Seq<char>, rest: Seq<char>)
    requires
        forall|i: int| 0 <= i < line.len() ==> #[trigger] line[i] != '\n',
    ensures
        trimmed(line).len() <= 48 ==> preview(line) == trimmed(line) && preview(
            line + seq!['\n'] + rest,
        ) == trimmed(line),
        trimmed(line).len() > 48 ==> preview(line) == trimmed(line).take(48) + "…"@ && preview(
            line + seq!['\n'] + rest,
        ) == trimmed(line).take(48) + "…"@,
        PREVIEW_CACHE_CAP == 256,
{
    crate::fields::separator_is_found(line, '\n', rest);
    crate::fields::no_separator(line, '\n');
    assert((line + seq!['\n'] + rest).take(line.len() as int) =~= line);
    assert(line.take(line.len() as int) =~= line);
}

} // verus!
