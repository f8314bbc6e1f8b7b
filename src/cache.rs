//! Remembers the translation of each diagnostic text, so that each is asked
//! for once, and keeps failures out so that they are asked for again.
use vstd::prelude::*;

use crate::text::{
    chars_of, matches_at, replace_all, replaced, string_of, trim, trim_bounds, trim_end,
    trim_end_len,
};

verus! {

/// The map that a list of pairs describes; a later pair overrides an earlier
/// one with the same key.
pub open spec fn map_of(e: Seq<(String, String)>) -> Map<Seq<char>, Seq<char>>
    decreases e.len(),
{
    if e.len() == 0 {
        Map::empty()
    } else {
        map_of(e.drop_last()).insert(e.last().0@, e.last().1@)
    }
}

pub open spec fn keys_distinct(e: Seq<(String, String)>) -> bool {
    forall|i: int, j: int| 0 <= i < j < e.len() ==> e[i].0@ != e[j].0@
}

/// The text that stands in place of a translation that could not be had.
pub open spec fn failure_text() -> Seq<char> {
    "Translation failed."@
}

/// The request sent for a diagnostic text: newlines become spaces, fences of
/// three backticks are dropped, and the result is trimmed.
pub open spec fn prompt_for(language: Seq<char>, key: Seq<char>) -> Seq<char> {
    "Translate the following English compiler diagnostic message into "@ + language
        + " as plain text: "@ + trim(replaced(replaced(key, "\n"@, " "@), "```"@, ""@))
}

pub open spec fn view_of(outcome: Option<String>) -> Option<Seq<char>> {
    match outcome {
        Some(s) => Some(s@),
        None => None,
    }
}

/// Whether the service's answer is a translation worth keeping.
pub open spec fn is_translation(outcome: Option<Seq<char>>) -> bool {
    outcome matches Some(v) && v != failure_text()
}

/// The text shown for the service's answer.
pub open spec fn outcome_text(outcome: Option<Seq<char>>) -> Seq<char> {
    match outcome {
        Some(v) => trim_end(v),
        None => failure_text(),
    }
}

/// The cache's contents once the answer for `key` is recorded.
pub open spec fn after_outcome(
    m: Map<Seq<char>, Seq<char>>,
    key: Seq<char>,
    outcome: Option<Seq<char>>,
) -> Map<Seq<char>, Seq<char>> {
    if is_translation(outcome) {
        m.insert(key, outcome_text(outcome))
    } else {
        m
    }
}

/// Contents of a persisted cache, as `serde_json` reads them from the
/// file's text (`None` where it is not a JSON object of strings).
pub uninterp spec fn decoded_cache(text: Seq<char>) -> Option<Map<Seq<char>, Seq<char>>>;

/// The file's text that `serde_json` writes for a cache's contents.
pub uninterp spec fn encoded_cache(m: Map<Seq<char>, Seq<char>>) -> Option<Seq<char>>;

/// Relies on `serde_json::from_str` reading a JSON object of strings into a
/// `BTreeMap`, whose pairs are then listed.
#[verifier::external_body]
fn decode_entries(text: &str) -> (r: Option<Vec<(String, String)>>)
    ensures
        r matches Some(e) ==> decoded_cache(text@) == Some(map_of(e@)),
        r is None ==> decoded_cache(text@) is None,
{
    serde_json::from_str::<std::collections::BTreeMap<String, String>>(text).ok().map(
        |m| m.into_iter().collect(),
    )
}

/// Relies on `serde_json::to_string_pretty` writing a `BTreeMap` of the pairs
/// as a JSON object.
#[verifier::external_body]
fn encode_entries(e: &Vec<(String, String)>) -> (r: Option<String>)
    ensures
        r matches Some(t) ==> encoded_cache(map_of(e@)) == Some(t@),
        r is None ==> encoded_cache(map_of(e@)) is None,
{
    let m: std::collections::BTreeMap<&String, &String> = e.iter().map(|p| (&p.0, &p.1)).collect();
    serde_json::to_string_pretty(&m).ok()
}

proof fn lemma_map_of_absent(e: Seq<(String, String)>, k: Seq<char>)
    requires
        forall|i: int| 0 <= i < e.len() ==> e[i].0@ != k,
    ensures
        !map_of(e).contains_key(k),
    decreases e.len(),
{
    if e.len() > 0 {
        lemma_map_of_absent(e.drop_last(), k);
    }
}

proof fn lemma_map_of_at(e: Seq<(String, String)>, i: int)
    requires
        keys_distinct(e),
        0 <= i < e.len(),
    ensures
        map_of(e).contains_key(e[i].0@),
        map_of(e)[e[i].0@] == e[i].1@,
    decreases e.len(),
{
    if i < e.len() - 1 {
        lemma_map_of_at(e.drop_last(), i);
    }
}

proof fn lemma_map_of_update(e: Seq<(String, String)>, i: int, p: (String, String))
    requires
        keys_distinct(e),
        0 <= i < e.len(),
        p.0@ == e[i].0@,
    ensures
        map_of(e.update(i, p)) == map_of(e).insert(p.0@, p.1@),
    decreases e.len(),
{
    let u = e.update(i, p);
    if i == e.len() - 1 {
        assert(u.drop_last() =~= e.drop_last());
        assert(forall|j: int| 0 <= j < e.drop_last().len() ==> e.drop_last()[j].0@ != p.0@);
        lemma_map_of_absent(e.drop_last(), p.0@);
        assert(map_of(u) =~= map_of(e).insert(p.0@, p.1@));
    } else {
        lemma_map_of_update(e.drop_last(), i, p);
        assert(u.drop_last() =~= e.drop_last().update(i, p));
        assert(map_of(u) =~= map_of(e).insert(p.0@, p.1@));
    }
}

/// Where `key` stands among the pairs.
fn position(e: &Vec<(String, String)>, key: &str) -> (r: Option<usize>)
    ensures
        r matches Some(i) ==> i < e@.len() && e@[i as int].0@ == key@,
        r is None ==> forall|i: int| 0 <= i < e@.len() ==> e@[i].0@ != key@,
{
    let kc = chars_of(key);
    let mut i: usize = 0;
    while i < e.len()
        invariant
            i <= e.len(),
            kc@ == key@,
            forall|j: int| 0 <= j < i ==> e@[j].0@ != key@,
        decreases e.len() - i,
    {
        let name = chars_of(e[i].0.as_str());
        if name.len() == kc.len() && matches_at(&name, &kc, 0) {
            assert(name@ =~= kc@);
            return Some(i);
        }
        assert(name@ != kc@) by {
            if name@ == kc@ {
                assert(name@.subrange(0, kc@.len() as int) =~= name@);
            }
        }
        i = i + 1;
    }
    None
}

/// What a lookup found: the stored translation, or the prompt to send.
pub enum Lookup {
    Hit(String),
    Miss(String),
}

/// Diagnostic texts and their translations, each text at most once.
pub struct TranslationCache {
    entries: Vec<(String, String)>,
}

impl View for TranslationCache {
    type V = Map<Seq<char>, Seq<char>>;

    closed spec fn view(&self) -> Map<Seq<char>, Seq<char>> {
        map_of(self.entries@)
    }
}

impl TranslationCache {
    pub closed spec fn wf(&self) -> bool {
        keys_distinct(self.entries@)
    }

    /// An empty cache.
    pub fn new() -> (r: TranslationCache)
        ensures
            r.wf(),
            r@ == Map::<Seq<char>, Seq<char>>::empty(),
    {
        TranslationCache { entries: Vec::new() }
    }

    /// The number of texts held.
    pub fn len(&self) -> (r: usize)
        requires
            self.wf(),
        ensures
            r == self@.len(),
    {
        proof {
            lemma_len_of(self.entries@);
        }
        self.entries.len()
    }

    /// The translation stored for `key`.
    pub fn get(&self, key: &str) -> (r: Option<String>)
        requires
            self.wf(),
        ensures
            r matches Some(v) ==> self@.contains_key(key@) && v@ == self@[key@],
            r is None ==> !self@.contains_key(key@),
    {
        match position(&self.entries, key) {
            Some(i) => {
                proof {
                    lemma_map_of_at(self.entries@, i as int);
                }
                Some(self.entries[i].1.clone())
            },
            None => {
                proof {
                    lemma_map_of_absent(self.entries@, key@);
                }
                None
            },
        }
    }

    /// Stores `value` for `key`, replacing what was there.
    pub fn insert(&mut self, key: String, value: String)
        requires
            old(self).wf(),
        ensures
            final(self).wf(),
            final(self)@ == old(self)@.insert(key@, value@),
    {
        match position(&self.entries, key.as_str()) {
            Some(i) => {
                proof {
                    lemma_map_of_update(self.entries@, i as int, (key, value));
                }
                self.entries.set(i, (key, value));
            },
            None => {
                let ghost before = self.entries@;
                self.entries.push((key, value));
                assert(self.entries@.drop_last() =~= before);
            },
        }
    }

    /// A cache holding the pairs, a later pair overriding an earlier one with
    /// the same text.
    pub fn from_entries(e: Vec<(String, String)>) -> (r: TranslationCache)
        ensures
            r.wf(),
            r@ == map_of(e@),
    {
        let mut c = TranslationCache::new();
        let mut i: usize = 0;
        while i < e.len()
            invariant
                i <= e.len(),
                c.wf(),
                c@ == map_of(e@.subrange(0, i as int)),
            decreases e.len() - i,
        {
            assert(e@.subrange(0, i + 1).drop_last() =~= e@.subrange(0, i as int));
            c.insert(e[i].0.clone(), e[i].1.clone());
            i = i + 1;
        }
        assert(e@.subrange(0, e@.len() as int) =~= e@);
        c
    }

    /// The stored pairs, each text once.
    pub fn entries(&self) -> (r: Vec<(String, String)>)
        requires
            self.wf(),
        ensures
            keys_distinct(r@),
            map_of(r@) == self@,
    {
        let mut r: Vec<(String, String)> = Vec::new();
        let mut i: usize = 0;
        while i < self.entries.len()
            invariant
                i <= self.entries.len(),
                self.wf(),
                r@ == self.entries@.subrange(0, i as int),
            decreases self.entries.len() - i,
        {
            r.push((self.entries[i].0.clone(), self.entries[i].1.clone()));
            assert(r@ =~= self.entries@.subrange(0, i + 1));
            i = i + 1;
        }
        assert(r@ =~= self.entries@);
        r
    }

    /// The cache that the text of a cache file describes; empty where the
    /// text is not a JSON object of strings.
    pub fn from_json(text: &str) -> (r: TranslationCache)
        ensures
            r.wf(),
            r@ == match decoded_cache(text@) {
                Some(m) => m,
                None => Map::empty(),
            },
    {
        match decode_entries(text) {
            Some(e) => TranslationCache::from_entries(e),
            None => TranslationCache::new(),
        }
    }

    /// The text of the cache file for this cache.
    pub fn to_json(&self) -> (r: Option<String>)
        requires
            self.wf(),
        ensures
            r matches Some(t) ==> encoded_cache(self@) == Some(t@),
            r is None ==> encoded_cache(self@) is None,
    {
        let e = self.entries();
        encode_entries(&e)
    }

    /// The stored translation of `key`, or where there is none, the prompt
    /// that asks for it in `language`.
    pub fn lookup(&self, key: &str, language: &str) -> (r: Lookup)
        requires
            self.wf(),
        ensures
            r matches Lookup::Hit(t) ==> self@.contains_key(key@) && t@ == self@[key@],
            r matches Lookup::Miss(p) ==> !self@.contains_key(key@) && p@ == prompt_for(
                language@,
                key@,
            ),
    {
        match self.get(key) {
            Some(t) => Lookup::Hit(t),
            None => Lookup::Miss(build_prompt(language, key)),
        }
    }

    /// Records the service's answer for `key`: a translation is stored with
    /// its trailing whitespace removed; a failure is not. Returns the text to
    /// show, and whether the cache changed (and so is to be saved).
    pub fn record(&mut self, key: &str, outcome: Option<String>) -> (r: (String, bool))
        requires
            old(self).wf(),
        ensures
            final(self).wf(),
            final(self)@ == after_outcome(old(self)@, key@, view_of(outcome)),
            r.0@ == outcome_text(view_of(outcome)),
            r.1 == is_translation(view_of(outcome)),
    {
        match outcome {
            Some(v) => {
                let vc = chars_of(v.as_str());
                let n = trim_end_len(&vc);
                let text = string_of(&vc, 0, n);
                let fail = failure_string();
                if v == fail {
                    (text, false)
                } else {
                    self.insert(String::from_str(key), text.clone());
                    (text, true)
                }
            },
            None => (failure_string(), false),
        }
    }
}

proof fn lemma_len_of(e: Seq<(String, String)>)
    requires
        keys_distinct(e),
    ensures
        map_of(e).len() == e.len(),
        map_of(e).dom().finite(),
    decreases e.len(),
{
    if e.len() > 0 {
        lemma_len_of(e.drop_last());
        assert(forall|j: int| 0 <= j < e.drop_last().len() ==> e.drop_last()[j].0@ != e.last().0@);
        lemma_map_of_absent(e.drop_last(), e.last().0@);
    }
}

/// The text that stands in place of a translation that could not be had.
pub fn failure_string() -> (r: String)
    ensures
        r@ == failure_text(),
{
    String::from_str("Translation failed.")
}

/// The request sent for the diagnostic text `key`, asking for `language`.
pub fn build_prompt(language: &str, key: &str) -> (r: String)
    ensures
        r@ == prompt_for(language@, key@),
{
    let kc = chars_of(key);
    let nl = chars_of("\n");
    let sp = chars_of(" ");
    let fence = chars_of("```");
    let none = chars_of("");
    let flat = replace_all(&kc, &nl, &sp);
    let bare = replace_all(&flat, &fence, &none);
    let (a, b) = trim_bounds(&bare);
    let body = string_of(&bare, a, b);
    let mut r = String::from_str("Translate the following English compiler diagnostic message into ");
    r.append(language);
    r.append(" as plain text: ");
    r.append(body.as_str());
    r
}

/// Once a translation of `key` is recorded, the cache holds it, so that the
/// next lookup of `key` finds the very text shown and asks nothing.
pub proof fn success_is_remembered(
    m: Map<Seq<char>, Seq<char>>,
    key: Seq<char>,
    answer: Seq<char>,
)
    requires
        answer != failure_text(),
    ensures
        after_outcome(m, key, Some(answer)).contains_key(key),
        after_outcome(m, key, Some(answer))[key] == outcome_text(Some(answer)),
{
}

/// A failed answer leaves the cache as it was: a text that was missing stays
/// missing, so its next lookup asks again.
pub proof fn failure_is_not_remembered(
    m: Map<Seq<char>, Seq<char>>,
    key: Seq<char>,
    outcome: Option<Seq<char>>,
)
    requires
        !is_translation(outcome),
    ensures
        after_outcome(m, key, outcome) == m,
        !m.contains_key(key) ==> !after_outcome(m, key, outcome).contains_key(key),
{
}

} // verus!
