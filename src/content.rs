//! Challenge content: paragraphs of lines for bosses, and the words of the
//! current paragraph for ordinary enemies.

use crate::random::{chance, roll};
use crate::state::Difficulty;
use crate::text::{chars_of, lowercase, lower_of, push_char, trim_of, trim_str, upper_of, uppercase_first};
use rand::rngs::StdRng;
use vstd::prelude::*;

verus! {

/// What `str::lines` splits a text into.
pub uninterp spec fn text_lines(s: Seq<char>) -> Seq<Seq<char>>;

/// What `str::split_whitespace` splits a text into.
pub uninterp spec fn whitespace_words(s: Seq<char>) -> Seq<Seq<char>>;

/// What `char::is_alphanumeric` says of a character.
pub uninterp spec fn alnum(c: char) -> bool;

/// Relies on str::lines: the lines of a text.
#[verifier::external_body]
fn split_lines(s: &str) -> (r: Vec<String>)
    ensures
        r@.map_values(|l: String| l@) == text_lines(s@),
{
    s.lines().map(String::from).collect()
}

/// Relies on str::split_whitespace: the words of a text.
#[verifier::external_body]
fn split_words(s: &str) -> (r: Vec<String>)
    ensures
        r@.map_values(|w: String| w@) == whitespace_words(s@),
{
    s.split_whitespace().map(String::from).collect()
}

/// Relies on char::is_alphanumeric.
#[verifier::external_body]
fn is_alphanumeric(c: char) -> (r: bool)
    ensures
        r == alnum(c),
{
    c.is_alphanumeric()
}

pub open spec fn views(v: Seq<String>) -> Seq<Seq<char>> {
    v.map_values(|s: String| s@)
}

/// The alphanumeric characters of a word, in order.
pub open spec fn cleaned(w: Seq<char>) -> Seq<char>
    decreases w.len(),
{
    if w.len() == 0 {
        w
    } else {
        let rest = cleaned(w.drop_last());
        if alnum(w.last()) {
            rest.push(w.last())
        } else {
            rest
        }
    }
}

/// The trimmed, non-empty lines among `lines`.
pub open spec fn kept_lines(lines: Seq<Seq<char>>) -> Seq<Seq<char>>
    decreases lines.len(),
{
    if lines.len() == 0 {
        lines
    } else {
        let rest = kept_lines(lines.drop_last());
        let t = trim_of(lines.last());
        if t.len() > 0 {
            rest.push(t)
        } else {
            rest
        }
    }
}

/// The cleaned words of `lines`, line after line.
pub open spec fn line_words(lines: Seq<Seq<char>>) -> Seq<Seq<char>>
    decreases lines.len(),
{
    if lines.len() == 0 {
        Seq::empty()
    } else {
        line_words(lines.drop_last()) + whitespace_words(lines.last()).map_values(
            |w: Seq<char>| cleaned(w),
        )
    }
}

/// The non-empty entries of `s`, each at its first appearance.
pub open spec fn distinct(s: Seq<Seq<char>>) -> Seq<Seq<char>>
    decreases s.len(),
{
    if s.len() == 0 {
        s
    } else {
        let rest = distinct(s.drop_last());
        if s.last().len() == 0 || rest.contains(s.last()) {
            rest
        } else {
            rest.push(s.last())
        }
    }
}

/// `r` is `base` with some characters upper-cased.
pub open spec fn case_variant(base: Seq<char>, r: Seq<char>) -> bool {
    &&& r.len() == base.len()
    &&& forall|i: int| 0 <= i < r.len() ==> #[trigger] r[i] == base[i] || r[i] == upper_of(base[i])
}

pub struct ParagraphContent {
    pub lines: Vec<String>,
    pub unique_words: Vec<String>,
}

pub struct ContentManager {
    pub paragraphs: Vec<ParagraphContent>,
    pub current_index: usize,
}

/// The alphanumeric characters of `w`.
fn clean_word(w: &str) -> (r: String)
    ensures
        r@ == cleaned(w@),
{
    let cs = chars_of(w);
    let mut r = String::new();
    let mut i: usize = 0;
    while i < cs.len()
        invariant
            i <= cs.len(),
            cs@ == w@,
            r@ == cleaned(cs@.take(i as int)),
        decreases cs.len() - i,
    {
        let c = cs[i];
        assert(cs@.take(i + 1).drop_last() =~= cs@.take(i as int));
        if is_alphanumeric(c) {
            push_char(&mut r, c);
        }
        i = i + 1;
    }
    assert(cs@.take(cs.len() as int) =~= cs@);
    r
}

/// The trimmed, non-empty lines of `lines`.
fn keep_lines(lines: &Vec<String>) -> (r: Vec<String>)
    ensures
        views(r@) == kept_lines(views(lines@)),
{
    let mut r: Vec<String> = Vec::new();
    let mut i: usize = 0;
    while i < lines.len()
        invariant
            i <= lines.len(),
            views(r@) == kept_lines(views(lines@.take(i as int))),
        decreases lines.len() - i,
    {
        let t = trim_str(lines[i].as_str());
        assert(views(lines@.take(i + 1)).drop_last() =~= views(lines@.take(i as int)));
        if !t.is_empty() {
            let ghost before = r@;
            r.push(t.to_owned());
            assert(views(r@) =~= views(before).push(t@));
        }
        i = i + 1;
    }
    assert(lines@.take(lines.len() as int) =~= lines@);
    r
}

/// The cleaned words of `lines`, line after line.
fn collect_words(lines: &Vec<String>) -> (r: Vec<String>)
    ensures
        views(r@) == line_words(views(lines@)),
{
    let mut r: Vec<String> = Vec::new();
    let mut i: usize = 0;
    while i < lines.len()
        invariant
            i <= lines.len(),
            views(r@) == line_words(views(lines@.take(i as int))),
        decreases lines.len() - i,
    {
        let words = split_words(lines[i].as_str());
        let ghost base = views(r@);
        let mut j: usize = 0;
        while j < words.len()
            invariant
                j <= words.len(),
                views(words@) == whitespace_words(lines@[i as int]@),
                views(r@) == base + views(words@.take(j as int)).map_values(
                    |w: Seq<char>| cleaned(w),
                ),
            decreases words.len() - j,
        {
            let c = clean_word(words[j].as_str());
            let ghost before = r@;
            r.push(c);
            assert(views(r@) =~= views(before).push(c@));
            assert(views(words@.take(j + 1)).map_values(|w: Seq<char>| cleaned(w)) =~= views(
                words@.take(j as int),
            ).map_values(|w: Seq<char>| cleaned(w)).push(cleaned(words@[j as int]@)));
            j = j + 1;
        }
        assert(words@.take(words.len() as int) =~= words@);
        assert(views(lines@.take(i + 1)).drop_last() =~= views(lines@.take(i as int)));
        assert(views(lines@.take(i + 1)).last() == lines@[i as int]@);
        i = i + 1;
    }
    assert(lines@.take(lines.len() as int) =~= lines@);
    r
}

/// The non-empty words of `words`, each once, in order of first appearance.
fn distinct_words(words: &Vec<String>) -> (r: Vec<String>)
    ensures
        views(r@) == distinct(views(words@)),
{
    let mut r: Vec<String> = Vec::new();
    let mut i: usize = 0;
    while i < words.len()
        invariant
            i <= words.len(),
            views(r@) == distinct(views(words@.take(i as int))),
        decreases words.len() - i,
    {
        let w = &words[i];
        assert(views(words@.take(i + 1)).drop_last() =~= views(words@.take(i as int)));
        assert(views(words@.take(i + 1)).last() == w@);
        let mut seen = false;
        let mut j: usize = 0;
        while j < r.len()
            invariant
                j <= r.len(),
                seen == views(r@).take(j as int).contains(w@),
            decreases r.len() - j,
        {
            assert(views(r@).take(j + 1) =~= views(r@).take(j as int).push(r@[j as int]@));
            let same = r[j] == *w;
            proof {
                let s0 = views(r@).take(j as int);
                let s1 = views(r@).take(j + 1);
                if s0.contains(w@) {
                    let k = choose|k: int| 0 <= k < s0.len() && s0[k] == w@;
                    assert(s1[k] == w@);
                }
                if same {
                    assert(s1[j as int] == w@);
                }
                if s1.contains(w@) {
                    let k = choose|k: int| 0 <= k < s1.len() && s1[k] == w@;
                    if k < j {
                        assert(s0[k] == w@);
                    }
                }
            }
            if same {
                seen = true;
            }
            j = j + 1;
        }
        assert(views(r@).take(r.len() as int) =~= views(r@));
        if !w.as_str().is_empty() && !seen {
            let ghost before = r@;
            r.push(w.clone());
            assert(views(r@) =~= views(before).push(w@));
        }
        i = i + 1;
    }
    assert(words@.take(words.len() as int) =~= words@);
    r
}

impl ParagraphContent {
    /// The paragraph that a text file holds: its trimmed non-empty lines, and
    /// the distinct alphanumeric words of those lines.
    pub fn from_text(content: &str) -> (r: ParagraphContent)
        ensures
            views(r.lines@) == kept_lines(text_lines(content@)),
            views(r.unique_words@) == distinct(line_words(kept_lines(text_lines(content@)))),
    {
        let raw = split_lines(content);
        let lines = keep_lines(&raw);
        let words = collect_words(&lines);
        let unique_words = distinct_words(&words);
        ParagraphContent { lines, unique_words }
    }
}

/// A paragraph as the lines and the words it offers.
pub open spec fn paragraph_view(p: ParagraphContent) -> (Seq<Seq<char>>, Seq<Seq<char>>) {
    (views(p.lines@), views(p.unique_words@))
}

/// The paragraph that a text holds, as `from_text` builds it.
pub open spec fn text_paragraph(text: Seq<char>) -> (Seq<Seq<char>>, Seq<Seq<char>>) {
    let lines = kept_lines(text_lines(text));
    (lines, distinct(line_words(lines)))
}

/// The paragraphs of those texts that hold at least one line.
pub open spec fn text_paragraphs(texts: Seq<Seq<char>>) -> Seq<(Seq<Seq<char>>, Seq<Seq<char>>)>
    decreases texts.len(),
{
    if texts.len() == 0 {
        Seq::empty()
    } else {
        let rest = text_paragraphs(texts.drop_last());
        let p = text_paragraph(texts.last());
        if p.0.len() > 0 {
            rest.push(p)
        } else {
            rest
        }
    }
}

/// The lines of the built-in paragraph.
pub open spec fn built_in_lines() -> Seq<Seq<char>> {
    seq![
        "The quick brown fox jumps over the lazy dog"@,
        "Programming in Rust is fun and safe"@,
        "Bevy makes game development easy"@,
    ]
}

impl ContentManager {
    /// Every paragraph offers a line, and the current one exists.
    pub open spec fn wf(self) -> bool {
        &&& self.paragraphs.len() > 0
        &&& self.current_index < self.paragraphs.len()
        &&& forall|i: int|
            0 <= i < self.paragraphs.len() ==> #[trigger] self.paragraphs@[i].lines@.len() > 0
    }

    pub open spec fn model(self) -> Seq<(Seq<Seq<char>>, Seq<Seq<char>>)> {
        self.paragraphs@.map_values(|p: ParagraphContent| paragraph_view(p))
    }

    /// The lines of the current paragraph.
    pub open spec fn current_lines(self) -> Seq<Seq<char>> {
        views(self.paragraphs@[self.current_index as int].lines@)
    }

    /// The words of the current paragraph.
    pub open spec fn current_words(self) -> Seq<Seq<char>> {
        views(self.paragraphs@[self.current_index as int].unique_words@)
    }

    /// `r` is a word that `get_word` may hand out.
    pub open spec fn word_drawn(self, difficulty: Difficulty, r: Seq<char>) -> bool {
        let words = self.current_words();
        if words.len() == 0 {
            r == "empty"@
        } else {
            exists|i: int|
                0 <= i < words.len() && match difficulty {
                    Difficulty::Easy => r == lower_of(#[trigger] words[i]),
                    Difficulty::Hard => case_variant(words[i], r),
                }
        }
    }

    /// Content of one paragraph, for when no text offers a line.
    pub fn built_in() -> (r: ContentManager)
        ensures
            r.wf(),
            r.current_index == 0,
            r.paragraphs.len() == 1,
            r.current_lines() == built_in_lines(),
    {
        let lines: Vec<String> = vec![
            "The quick brown fox jumps over the lazy dog".to_owned(),
            "Programming in Rust is fun and safe".to_owned(),
            "Bevy makes game development easy".to_owned(),
        ];
        assert(views(lines@) =~= built_in_lines());
        let words = collect_words(&lines);
        let unique_words = distinct_words(&words);
        let mut paragraphs: Vec<ParagraphContent> = Vec::new();
        paragraphs.push(ParagraphContent { lines, unique_words });
        ContentManager { paragraphs, current_index: 0 }
    }

    /// Content from the texts of content files, one paragraph per text that
    /// holds a line; the built-in paragraph when none does.
    pub fn from_texts(texts: &Vec<String>) -> (r: ContentManager)
        ensures
            r.wf(),
            r.current_index == 0,
            text_paragraphs(views(texts@)).len() > 0 ==> r.model() == text_paragraphs(
                views(texts@),
            ),
            text_paragraphs(views(texts@)).len() == 0 ==> r.paragraphs.len() == 1 && r.current_lines()
                == built_in_lines(),
    {
        let mut paragraphs: Vec<ParagraphContent> = Vec::new();
        let mut i: usize = 0;
        while i < texts.len()
            invariant
                i <= texts.len(),
                paragraphs@.map_values(|p: ParagraphContent| paragraph_view(p)) == text_paragraphs(
                    views(texts@.take(i as int)),
                ),
                forall|k: int|
                    0 <= k < paragraphs.len() ==> #[trigger] paragraphs@[k].lines@.len() > 0,
            decreases texts.len() - i,
        {
            let p = ParagraphContent::from_text(texts[i].as_str());
            assert(views(texts@.take(i + 1)).drop_last() =~= views(texts@.take(i as int)));
            assert(views(texts@.take(i + 1)).last() == texts@[i as int]@);
            if p.lines.len() > 0 {
                let ghost before = paragraphs@;
                paragraphs.push(p);
                assert(paragraphs@.map_values(|p: ParagraphContent| paragraph_view(p)) =~= before.map_values(
                    |p: ParagraphContent| paragraph_view(p),
                ).push(paragraph_view(p)));
            } else {
                assert(views(p.lines@).len() == 0);
            }
            i = i + 1;
        }
        assert(texts@.take(texts.len() as int) =~= texts@);
        if paragraphs.len() == 0 {
            ContentManager::built_in()
        } else {
            ContentManager { paragraphs, current_index: 0 }
        }
    }

    /// A challenge word from the current paragraph: lower-cased under `Easy`,
    /// with each character upper-cased at even odds under `Hard`.
    pub fn get_word(&self, difficulty: Difficulty, rng: &mut StdRng) -> (r: String)
        requires
            self.wf(),
        ensures
            self.word_drawn(difficulty, r@),
    {
        let words = &self.paragraphs[self.current_index].unique_words;
        if words.len() == 0 {
            return "empty".to_owned();
        }
        let k = roll(rng, 0, words.len() as u64) as usize;
        let base = &words[k];
        assert(views(words@)[k as int] == base@);
        match difficulty {
            Difficulty::Easy => lowercase(base.as_str()),
            Difficulty::Hard => {
                let cs = chars_of(base.as_str());
                let mut r = String::new();
                let mut i: usize = 0;
                while i < cs.len()
                    invariant
                        i <= cs.len(),
                        cs@ == base@,
                        r@.len() == i,
                        forall|j: int| 0 <= j < i ==> #[trigger] r@[j] == cs@[j] || r@[j] == upper_of(cs@[j]),
                    decreases cs.len() - i,
                {
                    let c = cs[i];
                    if chance(rng, 1, 2) {
                        let u = uppercase_first(c);
                        push_char(&mut r, u);
                    } else {
                        push_char(&mut r, c);
                    }
                    i = i + 1;
                }
                assert(case_variant(views(words@)[k as int], r@));
                r
            },
        }
    }

    /// The lines of the current paragraph.
    pub fn get_current_lines(&self) -> (r: Vec<String>)
        requires
            self.wf(),
        ensures
            views(r@) == self.current_lines(),
            r@.len() > 0,
    {
        self.paragraphs[self.current_index].lines.clone()
    }

    /// Moves on to the next paragraph, wrapping around after the last.
    pub fn next_paragraph(&mut self)
        requires
            old(self).wf(),
        ensures
            final(self).wf(),
            final(self).paragraphs@ == old(self).paragraphs@,
            final(self).current_index == (old(self).current_index + 1) % (old(self).paragraphs.len() as int),
    {
        self.current_index = (self.current_index + 1) % self.paragraphs.len();
    }
}

} // verus!
