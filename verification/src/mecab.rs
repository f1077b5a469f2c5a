//! The dictionary-backed analyzer: loads a dictionary (with an optional user
//! dictionary overlay), analyzes normalized text into a feature table, and
//! hands that table out for ingestion into the linguistic feature list.
//!
//! The analysis model is a deterministic segmenter: at each position the
//! first dictionary entry whose surface is a non-empty prefix of the
//! remaining text consumes that prefix and contributes its feature entry.
//! Analysis succeeds exactly when the whole text is consumed this way and
//! the token count fits the table's 32-bit size.

use crate::resource::Resource;
use crate::text2mecab::{contains_nul, str_contains_nul};
use vstd::prelude::*;

verus! {

/// One dictionary entry: a surface form and the feature entry that an
/// analyzed occurrence of the surface contributes to the feature table.
pub struct MecabDictionaryEntry {
    pub surface: String,
    pub feature: String,
}

impl View for MecabDictionaryEntry {
    type V = (Seq<char>, Seq<char>);

    open spec fn view(&self) -> (Seq<char>, Seq<char>) {
        (self.surface@, self.feature@)
    }
}

/// Dictionary contents handed to `load`: entries in lookup order. The caller
/// obtains them from the dictionary directory; their format is the loading
/// side's concern.
pub struct MecabDictionary {
    pub entries: Vec<MecabDictionaryEntry>,
}

impl View for MecabDictionary {
    type V = Seq<(Seq<char>, Seq<char>)>;

    open spec fn view(&self) -> Seq<(Seq<char>, Seq<char>)> {
        self.entries@.map_values(|e: MecabDictionaryEntry| e@)
    }
}

/// A dictionary the analyzer accepts: every surface is non-empty and every
/// feature entry is representable on the analysis side.
pub open spec fn dict_wf(dv: Seq<(Seq<char>, Seq<char>)>) -> bool {
    forall|i: int|
        0 <= i < dv.len() ==> (#[trigger] dv[i]).0.len() > 0 && !contains_nul(dv[i].1)
}

/// A dictionary that loads successfully: accepted and not empty.
pub open spec fn dict_loadable(dv: Seq<(Seq<char>, Seq<char>)>) -> bool {
    dv.len() > 0 && dict_wf(dv)
}

/// Whether entry `i` matches at the head of `text`: its surface is a
/// non-empty prefix of `text`.
pub open spec fn entry_matches(dv: Seq<(Seq<char>, Seq<char>)>, i: int, text: Seq<char>) -> bool {
    dv[i].0.len() > 0 && dv[i].0.is_prefix_of(text)
}

/// The first entry from position `i` on that matches at the head of `text`.
pub open spec fn first_match_from(
    dv: Seq<(Seq<char>, Seq<char>)>,
    text: Seq<char>,
    i: int,
) -> Option<int>
    decreases dv.len() - i,
{
    if i < 0 || i >= dv.len() {
        None
    } else if entry_matches(dv, i, text) {
        Some(i)
    } else {
        first_match_from(dv, text, i + 1)
    }
}

/// What the first match is: the least matching entry index, or none at all.
pub proof fn lemma_first_match_from(dv: Seq<(Seq<char>, Seq<char>)>, text: Seq<char>, i: int)
    requires
        0 <= i <= dv.len(),
    ensures
        match first_match_from(dv, text, i) {
            Some(m) => i <= m < dv.len() && entry_matches(dv, m, text) && forall|q: int|
                i <= q < m ==> !entry_matches(dv, q, text),
            None => forall|q: int| i <= q < dv.len() ==> !entry_matches(dv, q, text),
        },
    decreases dv.len() - i,
{
    if i < dv.len() && !entry_matches(dv, i, text) {
        lemma_first_match_from(dv, text, i + 1);
    }
}

/// The feature entries that analyzing `text` against dictionary `dv` yields:
/// the first matching entry consumes its surface and contributes its
/// feature, until the text is exhausted; no match at a non-empty rest means
/// the analysis fails.
pub open spec fn tokenize(dv: Seq<(Seq<char>, Seq<char>)>, text: Seq<char>) -> Option<
    Seq<Seq<char>>,
>
    decreases text.len(),
{
    if text.len() == 0 {
        Some(Seq::empty())
    } else {
        match first_match_from(dv, text, 0) {
            None => None,
            Some(i) => {
                let l = dv[i].0.len() as int;
                let k = if l < 1 {
                    1
                } else if l > text.len() {
                    text.len() as int
                } else {
                    l
                };
                match tokenize(dv, text.skip(k)) {
                    None => None,
                    Some(rest) => Some(seq![dv[i].1] + rest),
                }
            },
        }
    }
}

/// Feature entries that analysis against an accepted dictionary yields are
/// representable on the analysis side: none holds an embedded terminator.
pub proof fn lemma_tokenize_nul_free(dv: Seq<(Seq<char>, Seq<char>)>, text: Seq<char>)
    requires
        dict_wf(dv),
    ensures
        tokenize(dv, text) matches Some(ts) ==> forall|k: int|
            0 <= k < ts.len() ==> !contains_nul(#[trigger] ts[k]),
    decreases text.len(),
{
    if text.len() > 0 {
        lemma_first_match_from(dv, text, 0);
        match first_match_from(dv, text, 0) {
            None => {},
            Some(i) => {
                let l = dv[i].0.len() as int;
                let k = if l < 1 {
                    1
                } else if l > text.len() {
                    text.len() as int
                } else {
                    l
                };
                lemma_tokenize_nul_free(dv, text.skip(k));
            },
        }
    }
}

/// How the analyzer's `load` operations fail.
#[derive(Clone, PartialEq, Eq, PartialOrd, Ord, Debug, Hash)]
pub enum MecabLoadError {
    /// The named native-style load operation reported failure.
    Unsuccessful { function: &'static str },
    /// A supplied file name holds an embedded terminator character and
    /// cannot be handed to the analysis side. Reported before anything is
    /// loaded.
    Nul { filename: String },
}

/// Validate a file name for the analysis side.
fn c_filename(path: &str) -> (r: Result<String, MecabLoadError>)
    ensures
        match r {
            Ok(s) => !contains_nul(path@) && s@ == path@,
            Err(e) => contains_nul(path@) && (e matches MecabLoadError::Nul { filename }
                && filename@ == path@),
        },
{
    if str_contains_nul(path) {
        Err(MecabLoadError::Nul { filename: path.to_owned() })
    } else {
        Ok(path.to_owned())
    }
}

/// The analyzer's output: one feature entry per analyzed token, in token
/// order. No entry holds an embedded terminator character, and the count
/// fits the table's 32-bit size.
pub struct MecabFeature {
    entries: Vec<String>,
}

impl MecabFeature {
    /// Holds of every feature table: every entry is representable on the
    /// analysis side (no embedded terminator character), and the number of
    /// entries fits the table's 32-bit size field.
    #[verifier::type_invariant]
    pub closed spec fn wf(&self) -> bool {
        &&& self.entries@.len() <= i32::MAX as int
        &&& forall|i: int|
            0 <= i < self.entries@.len() ==> !contains_nul(#[trigger] self.entries@[i]@)
    }
}

impl View for MecabFeature {
    type V = Seq<Seq<char>>;

    closed spec fn view(&self) -> Seq<Seq<char>> {
        self.entries@.map_values(|s: String| s@)
    }
}

impl MecabFeature {
    /// No feature entry ever holds an embedded terminator character.
    pub proof fn lemma_entries_nul_free(&self)
        requires
            self.wf(),
        ensures
            forall|i: int| 0 <= i < self@.len() ==> !contains_nul(#[trigger] self@[i]),
    {
    }

    /// The number of feature entries.
    pub fn len(&self) -> (n: usize)
        ensures
            n == self@.len(),
    {
        self.entries.len()
    }

    /// Read one feature entry.
    pub fn get(&self, i: usize) -> (r: &String)
        requires
            i < self@.len(),
        ensures
            r@ == self@[i as int],
    {
        &self.entries[i]
    }
}

/// A dictionary the analyzer has accepted.
struct LoadedDict {
    dict: MecabDictionary,
}

impl LoadedDict {
    #[verifier::type_invariant]
    spec fn wf(&self) -> bool {
        dict_loadable(self.dict@)
    }
}

struct MecabState {
    dict: Option<LoadedDict>,
    feature: Option<MecabFeature>,
}

/// The analyzer resource: uninitialized until `initialize`; then a
/// dictionary can be loaded (repeatedly; reloading replaces it) and text
/// analyzed into a feature table.
pub struct Mecab {
    state: Option<MecabState>,
}

impl Mecab {
    /// The loaded dictionary, if any.
    pub closed spec fn dict(&self) -> Option<Seq<(Seq<char>, Seq<char>)>> {
        match self.state {
            Some(st) => match st.dict {
                Some(ld) => Some(ld.dict@),
                None => None,
            },
            None => None,
        }
    }

    /// The feature table of the last successful analysis, if any.
    pub closed spec fn features(&self) -> Option<Seq<Seq<char>>> {
        match self.state {
            Some(st) => match st.feature {
                Some(f) => Some(f@),
                None => None,
            },
            None => None,
        }
    }
}

impl Default for Mecab {
    /// An analyzer starts uninitialized.
    fn default() -> (r: Self)
        ensures
            !r.initialized(),
    {
        Mecab { state: None }
    }
}

impl Resource for Mecab {
    closed spec fn initialized(&self) -> bool {
        self.state is Some
    }

    fn make() -> (r: Self) {
        Mecab { state: None }
    }

    fn is_initialized(&self) -> (b: bool) {
        self.state.is_some()
    }

    /// Sets up the analyzer with no dictionary and no feature table.
    fn initialize(&mut self) -> (ok: bool)
        ensures
            ok,
            final(self).dict() is None,
            final(self).features() is None,
    {
        self.state = Some(MecabState { dict: None, feature: None });
        true
    }

    /// Releases the dictionary and the feature table.
    fn clear(&mut self) -> (ok: bool) {
        self.state = None;
        true
    }
}

impl Mecab {
    /// Load a dictionary, replacing any loaded one. Fails with `Nul` when
    /// the directory name cannot be represented on the analysis side, before
    /// anything is loaded, and with `Unsuccessful` exactly when the analyzer
    /// rejects the dictionary contents (empty, an empty surface, or a
    /// feature entry with an embedded terminator). On failure the previously
    /// loaded dictionary stays active.
    pub fn load(&mut self, dic_dir: &str, dictionary: MecabDictionary) -> (r: Result<
        (),
        MecabLoadError,
    >)
        requires
            old(self).initialized(),
        ensures
            final(self).initialized(),
            final(self).features() == old(self).features(),
            match r {
                Ok(()) => !contains_nul(dic_dir@) && dict_loadable(dictionary@)
                    && final(self).dict() == Some(dictionary@),
                Err(MecabLoadError::Nul { filename }) => contains_nul(dic_dir@) && filename@
                    == dic_dir@ && final(self).dict() == old(self).dict(),
                Err(MecabLoadError::Unsuccessful { function }) => !contains_nul(dic_dir@)
                    && !dict_loadable(dictionary@) && function@ == "Mecab_load"@
                    && final(self).dict() == old(self).dict(),
            },
    {
        match c_filename(dic_dir) {
            Err(e) => {
                return Err(e);
            },
            Ok(_) => {},
        }
        if !dictionary_is_loadable(&dictionary) {
            return Err(MecabLoadError::Unsuccessful { function: "Mecab_load" });
        }
        let mut taken = self.state.take();
        let mut st = taken.unwrap();
        st.dict = Some(LoadedDict { dict: dictionary });
        self.state = Some(st);
        Ok(())
    }

    /// Load a dictionary with an optional user dictionary overlay appended
    /// to it; passing no overlay loads exactly the main dictionary, as
    /// `load` does. `userdic` names the overlay's file and
    /// `user_dictionary` holds its contents, so both are given or neither.
    pub fn load_with_userdic(
        &mut self,
        dic_dir: &str,
        userdic: Option<&str>,
        dictionary: MecabDictionary,
        user_dictionary: Option<MecabDictionary>,
    ) -> (r: Result<(), MecabLoadError>)
        requires
            old(self).initialized(),
            userdic.is_some() == user_dictionary.is_some(),
        ensures
            final(self).initialized(),
            final(self).features() == old(self).features(),
            match r {
                Ok(()) => {
                    &&& !contains_nul(dic_dir@)
                    &&& (userdic matches Some(u) ==> !contains_nul(u@))
                    &&& dict_loadable(combined_dict(dictionary@, user_dictionary))
                    &&& final(self).dict() == Some(combined_dict(dictionary@, user_dictionary))
                },
                Err(MecabLoadError::Nul { filename }) => {
                    &&& final(self).dict() == old(self).dict()
                    &&& if contains_nul(dic_dir@) {
                        filename@ == dic_dir@
                    } else {
                        userdic matches Some(u) && contains_nul(u@) && filename@ == u@
                    }
                },
                Err(MecabLoadError::Unsuccessful { function }) => {
                    &&& !contains_nul(dic_dir@)
                    &&& (userdic matches Some(u) ==> !contains_nul(u@))
                    &&& !dict_loadable(combined_dict(dictionary@, user_dictionary))
                    &&& function@ == "Mecab_load_with_userdic"@
                    &&& final(self).dict() == old(self).dict()
                },
            },
    {
        match c_filename(dic_dir) {
            Err(e) => {
                return Err(e);
            },
            Ok(_) => {},
        }
        match userdic {
            Some(u) => {
                match c_filename(u) {
                    Err(e) => {
                        return Err(e);
                    },
                    Ok(_) => {},
                }
            },
            None => {},
        }
        let mut combined = dictionary;
        let ghost main_view = combined@;
        match user_dictionary {
            Some(mut u) => {
                let ghost user_view = u@;
                combined.entries.append(&mut u.entries);
                proof {
                    assert(combined@ =~= main_view + user_view);
                }
            },
            None => {},
        }
        if !dictionary_is_loadable(&combined) {
            return Err(MecabLoadError::Unsuccessful { function: "Mecab_load_with_userdic" });
        }
        let mut taken = self.state.take();
        let mut st = taken.unwrap();
        st.dict = Some(LoadedDict { dict: combined });
        self.state = Some(st);
        Ok(())
    }

    /// The feature table of the last successful analysis; absent until one
    /// has run.
    pub fn get_feature(&self) -> (r: Option<&MecabFeature>)
        requires
            self.initialized(),
        ensures
            match r {
                Some(f) => self.features() == Some(f@),
                None => self.features() is None,
            },
    {
        match &self.state {
            Some(st) => st.feature.as_ref(),
            None => unreached(),
        }
    }

    /// Mutable access to the feature table of the last successful analysis.
    pub fn get_feature_mut(&mut self) -> (r: Option<&mut MecabFeature>)
        requires
            old(self).initialized(),
        ensures
            final(self).initialized(),
            final(self).dict() == old(self).dict(),
            match r {
                Some(fr) => old(self).features() == Some((*fr)@) && final(self).features() == Some(
                    (*final(fr))@,
                ),
                None => old(self).features() is None && final(self).features() is None,
            },
    {
        match &mut self.state {
            Some(st) => st.feature.as_mut(),
            None => unreached(),
        }
    }

    /// Analyze normalized text against the loaded dictionary. Succeeds
    /// exactly when a dictionary is loaded, the whole text segments against
    /// it, and the token count fits the table size; the feature table is
    /// replaced on success and kept unchanged on failure.
    pub fn analysis(&mut self, text: &str) -> (ok: bool)
        requires
            old(self).initialized(),
            !contains_nul(text@),
        ensures
            final(self).initialized(),
            final(self).dict() == old(self).dict(),
            match old(self).dict() {
                None => !ok && final(self).features() == old(self).features(),
                Some(dv) => match tokenize(dv, text@) {
                    None => !ok && final(self).features() == old(self).features(),
                    Some(ts) => if ts.len() <= i32::MAX as int {
                        ok && final(self).features() == Some(ts)
                    } else {
                        !ok && final(self).features() == old(self).features()
                    },
                },
            },
    {
        let mut taken = self.state.take();
        let mut st = taken.unwrap();
        let ghost dv = st.dict->Some_0.dict@;
        let feats = match &st.dict {
            Some(ld) => {
                proof {
                    use_type_invariant(ld);
                }
                segment_text(&ld.dict, text)
            },
            None => {
                self.state = Some(st);
                return false;
            },
        };
        match feats {
            Some(entries) => {
                if entries.len() > i32::MAX as usize {
                    self.state = Some(st);
                    false
                } else {
                    proof {
                        lemma_tokenize_nul_free(dv, text@);
                        let ts = entries@.map_values(|s: String| s@);
                        assert forall|i: int| 0 <= i < entries@.len() implies !contains_nul(
                            #[trigger] entries@[i]@,
                        ) by {
                            assert(ts[i] == entries@[i]@);
                        }
                    }
                    st.feature = Some(MecabFeature { entries });
                    self.state = Some(st);
                    true
                }
            },
            None => {
                self.state = Some(st);
                false
            },
        }
    }

    /// Diagnostic pass over the analyzer's state; reports success and leaves
    /// the state untouched. Writing the diagnostics out is the caller's
    /// concern.
    pub fn print(&mut self) -> (ok: bool)
        requires
            old(self).initialized(),
        ensures
            ok,
            *final(self) == *old(self),
    {
        true
    }

    /// The number of entries in the feature table; 0 before the first
    /// successful analysis.
    pub fn get_size(&self) -> (r: i32)
        requires
            self.initialized(),
        ensures
            match self.features() {
                None => r == 0,
                Some(fs) => r as int == fs.len(),
            },
    {
        match &self.state {
            Some(st) => match &st.feature {
                Some(f) => {
                    proof {
                        use_type_invariant(f);
                    }
                    f.entries.len() as i32
                },
                None => 0,
            },
            None => unreached(),
        }
    }

    /// Discard the feature table, keeping the loaded dictionary.
    pub fn refresh(&mut self) -> (ok: bool)
        requires
            old(self).initialized(),
        ensures
            ok,
            final(self).initialized(),
            final(self).dict() == old(self).dict(),
            final(self).features() is None,
    {
        let mut taken = self.state.take();
        let mut st = taken.unwrap();
        st.feature = None;
        self.state = Some(st);
        true
    }
}

/// The dictionary that a main dictionary and an optional overlay make up:
/// the overlay's entries follow the main entries.
pub open spec fn combined_dict(
    main: Seq<(Seq<char>, Seq<char>)>,
    user: Option<MecabDictionary>,
) -> Seq<(Seq<char>, Seq<char>)> {
    match user {
        Some(u) => main + u@,
        None => main,
    }
}

/// Passing no overlay is equivalent to a plain load: the combined dictionary
/// is exactly the main dictionary, so `load_with_userdic` without an overlay
/// promises the same loaded dictionary as `load`.
pub proof fn lemma_no_overlay_is_plain_load(main: Seq<(Seq<char>, Seq<char>)>)
    ensures
        combined_dict(main, None) == main,
{
}

/// Decide at run time whether the analyzer accepts a dictionary.
fn dictionary_is_loadable(d: &MecabDictionary) -> (b: bool)
    ensures
        b == dict_loadable(d@),
{
    let n = d.entries.len();
    assert(d@.len() == d.entries@.len());
    if n == 0 {
        return false;
    }
    let mut i: usize = 0;
    while i < n
        invariant
            i <= n,
            n == d.entries@.len(),
            n == d@.len(),
            forall|j: int|
                0 <= j < i ==> (#[trigger] d@[j]).0.len() > 0 && !contains_nul(d@[j].1),
        decreases n - i,
    {
        let entry = &d.entries[i];
        proof {
            assert(d@[i as int] == d.entries@[i as int]@);
        }
        if entry.surface.as_str().is_empty() {
            return false;
        }
        if str_contains_nul(entry.feature.as_str()) {
            return false;
        }
        i += 1;
    }
    true
}

/// Whether `pat` occurs at character position `pos` of `text`.
fn is_prefix_at(text: &str, pos: usize, pat: &str) -> (b: bool)
    requires
        pos as int <= text@.len(),
    ensures
        b == pat@.is_prefix_of(text@.skip(pos as int)),
{
    let n = text.unicode_len();
    let m = pat.unicode_len();
    if m > n - pos {
        assert(!pat@.is_prefix_of(text@.skip(pos as int)));
        return false;
    }
    let mut i: usize = 0;
    while i < m
        invariant
            i <= m,
            m == pat@.len(),
            n == text@.len(),
            pos + m <= n,
            forall|j: int| 0 <= j < i ==> text@[pos + j] == pat@[j],
        decreases m - i,
    {
        if text.get_char(pos + i) != pat.get_char(i) {
            assert(text@.skip(pos as int)[i as int] != pat@[i as int]);
            return false;
        }
        i += 1;
    }
    proof {
        assert(pat@ =~= text@.skip(pos as int).subrange(0, m as int));
    }
    true
}

/// Segment text against a dictionary: the run-time counterpart of
/// `tokenize`, returning the feature entries of the consumed tokens.
fn segment_text(d: &MecabDictionary, text: &str) -> (r: Option<Vec<String>>)
    ensures
        match r {
            Some(feats) => tokenize(d@, text@) == Some(feats@.map_values(|s: String| s@)),
            None => tokenize(d@, text@) is None,
        },
{
    let n = text.unicode_len();
    let entry_count = d.entries.len();
    let mut pos: usize = 0;
    let mut feats: Vec<String> = Vec::new();
    proof {
        assert(text@.skip(0) =~= text@);
    }
    while pos < n
        invariant
            pos <= n,
            n == text@.len(),
            entry_count == d@.len(),
            match tokenize(d@, text@.skip(pos as int)) {
                None => tokenize(d@, text@) is None,
                Some(rest) => tokenize(d@, text@) == Some(
                    feats@.map_values(|s: String| s@) + rest,
                ),
            },
        decreases n - pos,
    {
        let ghost rem = text@.skip(pos as int);
        let mut j: usize = 0;
        let mut found: Option<usize> = None;
        while j < entry_count
            invariant_except_break
                found is None,
            invariant
                j <= entry_count,
                entry_count == d@.len(),
                entry_count == d.entries@.len(),
                pos as int <= text@.len(),
                rem == text@.skip(pos as int),
                forall|q: int| 0 <= q < j ==> !entry_matches(d@, q, rem),
            ensures
                match found {
                    Some(idx) => idx < entry_count && entry_matches(d@, idx as int, rem)
                        && forall|q: int| 0 <= q < idx ==> !entry_matches(d@, q, rem),
                    None => forall|q: int| 0 <= q < entry_count ==> !entry_matches(d@, q, rem),
                },
            decreases entry_count - j,
        {
            proof {
                assert(d@[j as int] == d.entries@[j as int]@);
            }
            let surface = d.entries[j].surface.as_str();
            if !surface.is_empty() && is_prefix_at(text, pos, surface) {
                found = Some(j);
                break ;
            }
            j += 1;
        }
        proof {
            lemma_first_match_from(d@, rem, 0);
        }
        match found {
            None => {
                assert(first_match_from(d@, rem, 0) is None);
                assert(tokenize(d@, text@) is None);
                return None;
            },
            Some(idx) => {
                assert(first_match_from(d@, rem, 0) == Some(idx as int));
                let surface_len = d.entries[idx].surface.as_str().unicode_len();
                let token = d.entries[idx].feature.clone();
                let ghost feats_pre = feats@;
                feats.push(token);
                proof {
                    let l = d@[idx as int].0.len() as int;
                    assert(1 <= l <= rem.len());
                    assert(rem.skip(l) =~= text@.skip(pos + surface_len));
                    assert(feats@ =~= feats_pre.push(d.entries@[idx as int].feature));
                    assert(feats@.map_values(|s: String| s@) =~= feats_pre.map_values(
                        |s: String| s@,
                    ).push(d@[idx as int].1));
                    match tokenize(d@, rem.skip(l)) {
                        None => {
                            assert(tokenize(d@, rem) is None);
                        },
                        Some(rest2) => {
                            assert(tokenize(d@, rem) == Some(seq![d@[idx as int].1] + rest2));
                            assert(feats_pre.map_values(|s: String| s@) + (seq![d@[idx as int].1]
                                + rest2) =~= feats@.map_values(|s: String| s@) + rest2);
                        },
                    }
                }
                pos = pos + surface_len;
            },
        }
    }
    proof {
        assert(text@.skip(pos as int) =~= Seq::<char>::empty());
        assert(feats@.map_values(|s: String| s@) + Seq::<Seq<char>>::empty() =~= feats@.map_values(
            |s: String| s@,
        ));
    }
    Some(feats)
}

} // verus!
