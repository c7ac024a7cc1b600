//! Candidates as they come from a source, and as they leave the filter.

use vstd::prelude::*;
use crate::text::chars_of;

verus! {

/// A piece of text to match with its offset inside the raw line.
pub type MatchText<'a> = (&'a str, usize);

/// Which part of a candidate the matcher looks at.
#[derive(Clone, Copy, Debug, PartialEq, Eq, Structural)]
pub enum MatchType {
    /// The whole line.
    Full,
    /// The tag name of a tag line.
    TagName,
    /// The file name of a path.
    FileName,
    /// A grep line without its file path.
    IgnoreFilePath,
}

/// `c` with an ASCII capital turned into its small letter.
pub open spec fn ascii_lower(c: char) -> char {
    if 'A' <= c <= 'Z' {
        ((c as u8) + 32) as char
    } else {
        c
    }
}

/// Whether `text` is `word` when ASCII capitals count as small letters.
pub open spec fn is_word(text: Seq<char>, word: Seq<char>) -> bool {
    text.map_values(|c: char| ascii_lower(c)) == word
}

/// The match type that `name` stands for, `Full` where it names none.
pub open spec fn match_type_named(name: Seq<char>) -> MatchType {
    if is_word(name, "tagname"@) {
        MatchType::TagName
    } else if is_word(name, "filename"@) {
        MatchType::FileName
    } else if is_word(name, "ignorefilepath"@) {
        MatchType::IgnoreFilePath
    } else {
        MatchType::Full
    }
}

/// Whether `text` is `word` when ASCII capitals count as small letters.
pub fn matches_word(text: &Vec<char>, word: &str) -> (same: bool)
    ensures
        same == is_word(text@, word@),
{
    let letters = chars_of(word);
    let ghost folded = text@.map_values(|c: char| ascii_lower(c));
    if text.len() != letters.len() {
        return false;
    }
    let mut i: usize = 0;
    while i < text.len()
        invariant
            i <= text@.len(),
            text@.len() == letters@.len(),
            letters@ == word@,
            folded == text@.map_values(|c: char| ascii_lower(c)),
            folded.take(i as int) == letters@.take(i as int),
        decreases text@.len() - i,
    {
        let c = text[i];
        let low = if 'A' <= c && c <= 'Z' {
            ((c as u8) + 32) as char
        } else {
            c
        };
        assert(low == folded[i as int]);
        if low != letters[i] {
            return false;
        }
        proof {
            assert(folded.take(i + 1) =~= folded.take(i as int).push(low));
            assert(letters@.take(i + 1) =~= letters@.take(i as int).push(letters@[i as int]));
        }
        i += 1;
    }
    proof {
        assert(folded.take(i as int) =~= folded);
        assert(letters@.take(i as int) =~= letters@);
    }
    true
}

impl MatchType {
    /// The match type that `name` stands for, whatever the case of its
    /// letters: `full`, `tagname`, `filename` or `ignorefilepath`. Any
    /// other name stands for `Full`.
    pub fn parse(name: &str) -> (match_type: MatchType)
        ensures
            match_type == match_type_named(name@),
    {
        let text = chars_of(name);
        if matches_word(&text, "tagname") {
            MatchType::TagName
        } else if matches_word(&text, "filename") {
            MatchType::FileName
        } else if matches_word(&text, "ignorefilepath") {
            MatchType::IgnoreFilePath
        } else {
            MatchType::Full
        }
    }
}

/// One candidate line.
#[derive(Debug)]
pub struct SourceItem {
    /// Raw line content of the input stream.
    pub raw: String,
    /// Text for matching, with its offset in the raw line.
    pub match_text: Option<(String, usize)>,
    /// The display text can be built when creating a new source item.
    pub display_text: Option<String>,
}

/// Extracts the text for running the matcher.
pub trait MatchTextFor {
    /// The text to match for `match_ty`, with its offset in the raw line.
    /// `extracted` is what the pattern for `match_ty` found in the raw
    /// line; it is not looked at for `Full`.
    fn match_text_for(&self, match_ty: &MatchType, extracted: Option<(String, usize)>) -> Option<
        (String, usize),
    >;
}

impl MatchTextFor for SourceItem {
    fn match_text_for(&self, match_ty: &MatchType, extracted: Option<(String, usize)>) -> (found: Option<
        (String, usize),
    >)
        ensures
            found == self.match_text_given(*match_ty, extracted),
    {
        self.text_for(match_ty, extracted)
    }
}

impl SourceItem {
    /// The text shown for this item.
    pub open spec fn shown(&self) -> Seq<char> {
        match self.display_text {
            Some(text) => text@,
            None => self.raw@,
        }
    }

    /// The text that the matcher runs on.
    pub open spec fn matched(&self) -> Seq<char> {
        match self.match_text {
            Some((text, _)) => text@,
            None => self.raw@,
        }
    }

    /// The text to match and its offset: the stored match text where there
    /// is one, else the whole line for `Full`, else what was extracted.
    pub open spec fn match_text_given(
        &self,
        match_ty: MatchType,
        extracted: Option<(String, usize)>,
    ) -> Option<(String, usize)> {
        match self.match_text {
            Some(stored) => Some(stored),
            None => match match_ty {
                MatchType::Full => Some((self.raw, 0usize)),
                MatchType::TagName => match extracted {
                    Some((text, _)) => Some((text, 0usize)),
                    None => None,
                },
                _ => extracted,
            },
        }
    }

    /// Constructs `SourceItem`.
    pub fn new(raw: String, match_text: Option<(String, usize)>, display_text: Option<String>) -> (item:
        SourceItem)
        ensures
            item.raw == raw,
            item.match_text == match_text,
            item.display_text == display_text,
    {
        SourceItem { raw, match_text, display_text }
    }

    /// An item that is shown and matched as it is.
    pub fn from_raw(raw: String) -> (item: SourceItem)
        ensures
            item.raw == raw,
            item.match_text is None,
            item.display_text is None,
    {
        SourceItem { raw, match_text: None, display_text: None }
    }

    /// The text shown for this item: the display text, or the raw line
    /// where none was set.
    pub fn display_text(&self) -> (text: &str)
        ensures
            text@ == self.shown(),
    {
        match &self.display_text {
            Some(text) => text.as_str(),
            None => self.raw.as_str(),
        }
    }

    /// The text that the matcher runs on: the match text, or the raw line
    /// where none was set.
    pub fn match_text(&self) -> (text: &str)
        ensures
            text@ == self.matched(),
    {
        match &self.match_text {
            Some(pair) => pair.0.as_str(),
            None => self.raw.as_str(),
        }
    }

    /// The text to match for `match_ty`, with its offset in the raw line.
    pub fn text_for(&self, match_ty: &MatchType, extracted: Option<(String, usize)>) -> (found: Option<
        (String, usize),
    >)
        ensures
            found == self.match_text_given(*match_ty, extracted),
    {
        if let Some(pair) = &self.match_text {
            return Some((pair.0.clone(), pair.1));
        }
        match match_ty {
            MatchType::Full => Some((self.raw.clone(), 0)),
            MatchType::TagName => match extracted {
                Some(pair) => Some((pair.0, 0)),
                None => None,
            },
            _ => extracted,
        }
    }
}

/// This struct represents the filtered result of [`SourceItem`].
#[derive(Debug)]
pub struct FilteredItem<T> {
    /// The candidate that matched.
    pub source_item: SourceItem,
    /// Filtering score.
    pub score: T,
    /// Indices of matched elements.
    ///
    /// The indices may be truncated when truncating the text.
    pub match_indices: Vec<usize>,
    /// The text might be truncated for fitting into the display window.
    pub display_text: Option<String>,
}

/// `indices`, each moved up by `offset`.
pub open spec fn shifted_by(indices: Seq<usize>, offset: nat) -> Seq<int> {
    indices.map_values(|x: usize| x + offset)
}

impl<T> FilteredItem<T> {
    /// A filtered item that has not been truncated.
    pub fn new(item: SourceItem, score: T, match_indices: Vec<usize>) -> (filtered: FilteredItem<T>)
        ensures
            filtered.source_item == item,
            filtered.score == score,
            filtered.match_indices == match_indices,
            filtered.display_text is None,
    {
        FilteredItem { source_item: item, score, match_indices, display_text: None }
    }

    /// The text that would be shown without truncation.
    pub fn display_text_before_truncated(&self) -> (text: &str)
        ensures
            text@ == self.source_item.shown(),
    {
        self.source_item.display_text()
    }

    /// The text shown: the truncated text where there is one, else the
    /// text of the candidate.
    pub fn display_text(&self) -> (text: String)
        ensures
            text@ == match self.display_text {
                Some(cut) => cut@,
                None => self.source_item.shown(),
            },
    {
        match &self.display_text {
            Some(text) => text.clone(),
            None => self.source_item.display_text().to_owned(),
        }
    }

    /// Returns the match indices shifted by `offset`.
    pub fn shifted_indices(&self, offset: usize) -> (shifted: Vec<usize>)
        requires
            forall|i: int| 0 <= i < self.match_indices@.len() ==> self.match_indices@[i] + offset
                <= usize::MAX,
        ensures
            shifted@.map_values(|x: usize| x as int) == shifted_by(self.match_indices@, offset as nat),
    {
        let mut shifted: Vec<usize> = Vec::new();
        let mut i: usize = 0;
        while i < self.match_indices.len()
            invariant
                i <= self.match_indices@.len(),
                forall|k: int| 0 <= k < self.match_indices@.len() ==> self.match_indices@[k] + offset
                    <= usize::MAX,
                shifted@.len() == i,
                forall|k: int| 0 <= k < i ==> shifted@[k] == self.match_indices@[k] + offset,
            decreases self.match_indices@.len() - i,
        {
            shifted.push(self.match_indices[i] + offset);
            i += 1;
        }
        assert(shifted@.map_values(|x: usize| x as int) =~= shifted_by(
            self.match_indices@,
            offset as nat,
        ));
        shifted
    }

    /// The candidate, its score and the match indices.
    pub fn deconstruct(self) -> (parts: (SourceItem, T, Vec<usize>))
        ensures
            parts.0 == self.source_item,
            parts.1 == self.score,
            parts.2 == self.match_indices,
    {
        let FilteredItem { source_item, score, match_indices, display_text: _ } = self;
        (source_item, score, match_indices)
    }
}

} // verus!
