//! The linguistic feature list: a list of per-token records owned by the
//! analysis side, together with the extract/transform/rebuild protocol that
//! turns the list into safely owned values, applies a caller-supplied
//! transformation, and reconstructs the list, preserving order and every
//! field of every record.

use crate::mecab::MecabFeature;
use crate::resource::Resource;
use crate::text2mecab::contains_nul;
use vstd::prelude::*;

verus! {

/// An owned string that stands for a string buffer on the analysis side:
/// such a buffer can never hold an embedded terminator character.
#[derive(Debug)]
pub struct Utf8LibcString {
    text: String,
}

impl Utf8LibcString {
    #[verifier::type_invariant]
    spec fn wf(&self) -> bool {
        !contains_nul(self.text@)
    }
}

impl View for Utf8LibcString {
    type V = Seq<char>;

    closed spec fn view(&self) -> Seq<char> {
        self.text@
    }
}

impl Utf8LibcString {
    /// Creates a new `Utf8LibcString`. The text must not hold an embedded
    /// terminator character, since the analysis side could not represent it.
    pub fn new(s: &str) -> (r: Self)
        requires
            !contains_nul(s@),
        ensures
            r@ == s@,
    {
        Utf8LibcString { text: s.to_owned() }
    }

    /// Take ownership of a string buffer handed over by the analysis side.
    pub(crate) fn from_raw(raw: String) -> (r: Self)
        requires
            !contains_nul(raw@),
        ensures
            r@ == raw@,
    {
        Utf8LibcString { text: raw }
    }

    /// Hand ownership of the backing buffer to the analysis side.
    pub(crate) fn into_raw(self) -> (r: String)
        ensures
            r@ == self@,
            !contains_nul(r@),
    {
        proof {
            use_type_invariant(&self);
        }
        let Utf8LibcString { text } = self;
        text
    }

    /// Read the string's text.
    pub fn as_str(&self) -> (r: &str)
        ensures
            r@ == self@,
    {
        self.text.as_str()
    }
}

/// The value of one record, for specifications: each optional string field
/// as the text it holds, absent fields as `None`.
#[verifier::ext_equal]
pub struct NodeView {
    pub string: Option<Seq<char>>,
    pub pos: Option<Seq<char>>,
    pub pos_group1: Option<Seq<char>>,
    pub pos_group2: Option<Seq<char>>,
    pub pos_group3: Option<Seq<char>>,
    pub ctype: Option<Seq<char>>,
    pub cform: Option<Seq<char>>,
    pub orig: Option<Seq<char>>,
    pub read: Option<Seq<char>>,
    pub pron: Option<Seq<char>>,
    pub acc: int,
    pub mora_size: int,
    pub chain_rule: Option<Seq<char>>,
    pub chain_flag: int,
}

/// The text held by an optional string value, for specifications.
pub open spec fn opt_view<T: View<V = Seq<char>>>(o: Option<T>) -> Option<Seq<char>> {
    match o {
        Some(x) => Some(x@),
        None => None,
    }
}

/// One token's analysis record, safely owned: every string field is optional
/// (absent stands for a null entry on the analysis side).
#[derive(Debug)]
pub struct NjdNode {
    pub string: Option<Utf8LibcString>,
    pub pos: Option<Utf8LibcString>,
    pub pos_group1: Option<Utf8LibcString>,
    pub pos_group2: Option<Utf8LibcString>,
    pub pos_group3: Option<Utf8LibcString>,
    pub ctype: Option<Utf8LibcString>,
    pub cform: Option<Utf8LibcString>,
    pub orig: Option<Utf8LibcString>,
    pub read: Option<Utf8LibcString>,
    pub pron: Option<Utf8LibcString>,
    pub acc: i32,
    pub mora_size: i32,
    pub chain_rule: Option<Utf8LibcString>,
    pub chain_flag: i32,
}

impl View for NjdNode {
    type V = NodeView;

    open spec fn view(&self) -> NodeView {
        NodeView {
            string: opt_view(self.string),
            pos: opt_view(self.pos),
            pos_group1: opt_view(self.pos_group1),
            pos_group2: opt_view(self.pos_group2),
            pos_group3: opt_view(self.pos_group3),
            ctype: opt_view(self.ctype),
            cform: opt_view(self.cform),
            orig: opt_view(self.orig),
            read: opt_view(self.read),
            pron: opt_view(self.pron),
            acc: self.acc as int,
            mora_size: self.mora_size as int,
            chain_rule: opt_view(self.chain_rule),
            chain_flag: self.chain_flag as int,
        }
    }
}

/// One record as the analysis side keeps it: string fields are plain
/// buffers, none of which can hold an embedded terminator character.
pub struct RawNjdNode {
    string: Option<String>,
    pos: Option<String>,
    pos_group1: Option<String>,
    pos_group2: Option<String>,
    pos_group3: Option<String>,
    ctype: Option<String>,
    cform: Option<String>,
    orig: Option<String>,
    read: Option<String>,
    pron: Option<String>,
    acc: i32,
    mora_size: i32,
    chain_rule: Option<String>,
    chain_flag: i32,
}

spec fn raw_field_wf(o: Option<String>) -> bool {
    o matches Some(s) ==> !contains_nul(s@)
}

impl RawNjdNode {
    #[verifier::type_invariant]
    spec fn wf(&self) -> bool {
        &&& raw_field_wf(self.string)
        &&& raw_field_wf(self.pos)
        &&& raw_field_wf(self.pos_group1)
        &&& raw_field_wf(self.pos_group2)
        &&& raw_field_wf(self.pos_group3)
        &&& raw_field_wf(self.ctype)
        &&& raw_field_wf(self.cform)
        &&& raw_field_wf(self.orig)
        &&& raw_field_wf(self.read)
        &&& raw_field_wf(self.pron)
        &&& raw_field_wf(self.chain_rule)
    }
}

impl View for RawNjdNode {
    type V = NodeView;

    closed spec fn view(&self) -> NodeView {
        NodeView {
            string: opt_view(self.string),
            pos: opt_view(self.pos),
            pos_group1: opt_view(self.pos_group1),
            pos_group2: opt_view(self.pos_group2),
            pos_group3: opt_view(self.pos_group3),
            ctype: opt_view(self.ctype),
            cform: opt_view(self.cform),
            orig: opt_view(self.orig),
            read: opt_view(self.read),
            pron: opt_view(self.pron),
            acc: self.acc as int,
            mora_size: self.mora_size as int,
            chain_rule: opt_view(self.chain_rule),
            chain_flag: self.chain_flag as int,
        }
    }
}

/// Copy an optional analysis-side buffer.
fn clone_opt_string(s: &Option<String>) -> (r: Option<String>)
    ensures
        r == *s,
{
    match s {
        Some(x) => Some(x.clone()),
        None => None,
    }
}

impl RawNjdNode {
    /// An exact copy of the record, for handing the same values to another
    /// resource.
    pub(crate) fn duplicate(&self) -> (r: Self)
        ensures
            r@ == self@,
    {
        proof {
            use_type_invariant(self);
        }
        RawNjdNode {
            string: clone_opt_string(&self.string),
            pos: clone_opt_string(&self.pos),
            pos_group1: clone_opt_string(&self.pos_group1),
            pos_group2: clone_opt_string(&self.pos_group2),
            pos_group3: clone_opt_string(&self.pos_group3),
            ctype: clone_opt_string(&self.ctype),
            cform: clone_opt_string(&self.cform),
            orig: clone_opt_string(&self.orig),
            read: clone_opt_string(&self.read),
            pron: clone_opt_string(&self.pron),
            acc: self.acc,
            mora_size: self.mora_size,
            chain_rule: clone_opt_string(&self.chain_rule),
            chain_flag: self.chain_flag,
        }
    }

    /// The record's pronunciation field.
    pub(crate) fn pron_ref(&self) -> (r: Option<&String>)
        ensures
            match r {
                Some(s) => self@.pron == Some(s@),
                None => self@.pron is None,
            },
    {
        self.pron.as_ref()
    }

    /// The record's surface string field.
    pub(crate) fn string_ref(&self) -> (r: Option<&String>)
        ensures
            match r {
                Some(s) => self@.string == Some(s@),
                None => self@.string is None,
            },
    {
        self.string.as_ref()
    }
}

/// Convert an optional buffer handed over by the analysis side into an owned
/// optional string.
fn opt_from_raw(s: Option<String>) -> (r: Option<Utf8LibcString>)
    requires
        raw_field_wf(s),
    ensures
        opt_view(r) == opt_view(s),
{
    match s {
        Some(x) => Some(Utf8LibcString::from_raw(x)),
        None => None,
    }
}

/// Hand an owned optional string back as an optional buffer.
fn opt_into_raw(s: Option<Utf8LibcString>) -> (r: Option<String>)
    ensures
        opt_view(r) == opt_view(s),
        raw_field_wf(r),
{
    match s {
        Some(x) => Some(x.into_raw()),
        None => None,
    }
}

impl NjdNode {
    /// Take over one record from the analysis side: every present string
    /// field becomes an owned string, taking ownership of its buffer exactly
    /// once; absent fields stay absent; the record's backing memory is
    /// released with it.
    fn from_raw(raw: RawNjdNode) -> (r: Self)
        ensures
            r@ == raw@,
    {
        proof {
            use_type_invariant(&raw);
        }
        let RawNjdNode {
            string,
            pos,
            pos_group1,
            pos_group2,
            pos_group3,
            ctype,
            cform,
            orig,
            read,
            pron,
            acc,
            mora_size,
            chain_rule,
            chain_flag,
        } = raw;
        NjdNode {
            string: opt_from_raw(string),
            pos: opt_from_raw(pos),
            pos_group1: opt_from_raw(pos_group1),
            pos_group2: opt_from_raw(pos_group2),
            pos_group3: opt_from_raw(pos_group3),
            ctype: opt_from_raw(ctype),
            cform: opt_from_raw(cform),
            orig: opt_from_raw(orig),
            read: opt_from_raw(read),
            pron: opt_from_raw(pron),
            acc,
            mora_size,
            chain_rule: opt_from_raw(chain_rule),
            chain_flag,
        }
    }

    /// Hand one owned record back to the analysis side: every present string
    /// field transfers ownership of a fresh buffer; absent fields stay
    /// absent.
    fn into_raw(self) -> (r: RawNjdNode)
        ensures
            r@ == self@,
    {
        let NjdNode {
            string,
            pos,
            pos_group1,
            pos_group2,
            pos_group3,
            ctype,
            cform,
            orig,
            read,
            pron,
            acc,
            mora_size,
            chain_rule,
            chain_flag,
        } = self;
        RawNjdNode {
            string: opt_into_raw(string),
            pos: opt_into_raw(pos),
            pos_group1: opt_into_raw(pos_group1),
            pos_group2: opt_into_raw(pos_group2),
            pos_group3: opt_into_raw(pos_group3),
            ctype: opt_into_raw(ctype),
            cform: opt_into_raw(cform),
            orig: opt_into_raw(orig),
            read: opt_into_raw(read),
            pron: opt_into_raw(pron),
            acc,
            mora_size,
            chain_rule: opt_into_raw(chain_rule),
            chain_flag,
        }
    }
}

/// The record values of a sequence of owned nodes.
pub open spec fn nodes_of(s: Seq<NjdNode>) -> Seq<NodeView> {
    s.map_values(|n: NjdNode| n@)
}

/// The record values of a sequence of analysis-side records.
pub open spec fn raw_nodes_of(s: Seq<RawNjdNode>) -> Seq<NodeView> {
    s.map_values(|n: RawNjdNode| n@)
}

/// The record that the ingestion step builds from one feature entry: the
/// entry's text as the surface string, every other string field absent, and
/// the accent, mora count and chain flag at their initial values.
pub open spec fn node_of_feature(f: Seq<char>) -> NodeView {
    NodeView {
        string: Some(f),
        pos: None,
        pos_group1: None,
        pos_group2: None,
        pos_group3: None,
        ctype: None,
        cform: None,
        orig: None,
        read: None,
        pron: None,
        acc: 0,
        mora_size: 0,
        chain_rule: None,
        chain_flag: -1,
    }
}

/// The linguistic feature list resource: uninitialized until `initialize`,
/// then an ordered list of records owned by the analysis side.
pub struct Njd {
    list: Option<Vec<RawNjdNode>>,
}

impl Njd {
    /// The record values currently in the list, in list order.
    pub closed spec fn nodes(&self) -> Seq<NodeView> {
        raw_nodes_of(self.list->Some_0@)
    }

    /// Read access to the raw records for the label-generation bridge.
    pub(crate) fn raw_nodes(&self) -> (r: &Vec<RawNjdNode>)
        requires
            self.initialized(),
        ensures
            raw_nodes_of(r@) == self.nodes(),
    {
        match &self.list {
            Some(v) => v,
            None => unreached(),
        }
    }
}

impl Default for Njd {
    /// A feature list starts uninitialized.
    fn default() -> (r: Self)
        ensures
            !r.initialized(),
    {
        Njd { list: None }
    }
}

impl Resource for Njd {
    closed spec fn initialized(&self) -> bool {
        self.list is Some
    }

    fn make() -> (r: Self) {
        Njd { list: None }
    }

    fn is_initialized(&self) -> (b: bool) {
        self.list.is_some()
    }

    /// Sets up an empty list.
    fn initialize(&mut self) -> (ok: bool)
        ensures
            ok,
            final(self).nodes() == Seq::<NodeView>::empty(),
    {
        self.list = Some(Vec::new());
        true
    }

    /// Releases the list and every record still in it.
    fn clear(&mut self) -> (ok: bool) {
        self.list = None;
        true
    }
}

impl Njd {
    /// Pronunciation pass over the list. Its linguistic effect belongs to
    /// the analysis model, which here keeps every record value unchanged.
    pub fn set_pronunciation(&mut self)
        requires
            old(self).initialized(),
        ensures
            final(self).initialized(),
            final(self).nodes() == old(self).nodes(),
    {
    }

    /// Digit-reading pass over the list; keeps every record value unchanged.
    pub fn set_digit(&mut self)
        requires
            old(self).initialized(),
        ensures
            final(self).initialized(),
            final(self).nodes() == old(self).nodes(),
    {
    }

    /// Accent-type pass over the list; keeps every record value unchanged.
    pub fn set_accent_type(&mut self)
        requires
            old(self).initialized(),
        ensures
            final(self).initialized(),
            final(self).nodes() == old(self).nodes(),
    {
    }

    /// Accent-phrase pass over the list; keeps every record value unchanged.
    pub fn set_accent_phrase(&mut self)
        requires
            old(self).initialized(),
        ensures
            final(self).initialized(),
            final(self).nodes() == old(self).nodes(),
    {
    }

    /// Unvoiced-vowel pass over the list; keeps every record value
    /// unchanged.
    pub fn set_unvoiced_vowel(&mut self)
        requires
            old(self).initialized(),
        ensures
            final(self).initialized(),
            final(self).nodes() == old(self).nodes(),
    {
    }

    /// Long-vowel pass over the list; keeps every record value unchanged.
    pub fn set_long_vowel(&mut self)
        requires
            old(self).initialized(),
        ensures
            final(self).initialized(),
            final(self).nodes() == old(self).nodes(),
    {
    }

    /// Empties the list, releasing every record in it.
    pub fn refresh(&mut self)
        requires
            old(self).initialized(),
        ensures
            final(self).initialized(),
            final(self).nodes() == Seq::<NodeView>::empty(),
    {
        self.list = Some(Vec::new());
    }

    /// Ingest the analyzer's feature table: appends one record per entry of
    /// the table's first `mecab_feature_size` entries, in table order. A
    /// boundary conversion with no transformation logic of its own.
    pub fn mecab2njd(&mut self, mecab_feature: &MecabFeature, mecab_feature_size: i32)
        requires
            old(self).initialized(),
            0 <= mecab_feature_size,
            mecab_feature_size as int <= mecab_feature@.len(),
        ensures
            final(self).initialized(),
            final(self).nodes() == old(self).nodes() + mecab_feature@.take(
                mecab_feature_size as int,
            ).map_values(|f: Seq<char>| node_of_feature(f)),
    {
        proof {
            use_type_invariant(mecab_feature);
            mecab_feature.lemma_entries_nul_free();
        }
        let ghost target = mecab_feature@.take(mecab_feature_size as int).map_values(
            |f: Seq<char>| node_of_feature(f),
        );
        let size = mecab_feature_size as usize;
        let mut taken = self.list.take();
        let mut list = taken.unwrap();
        let ghost base = raw_nodes_of(list@);
        let mut i: usize = 0;
        while i < size
            invariant
                i <= size,
                size as int <= mecab_feature@.len(),
                raw_nodes_of(list@) =~= base + target.take(i as int),
                target == mecab_feature@.take(size as int).map_values(
                    |f: Seq<char>| node_of_feature(f),
                ),
                forall|j: int|
                    0 <= j < mecab_feature@.len() ==> !contains_nul(#[trigger] mecab_feature@[j]),
            decreases size - i,
        {
            let entry = mecab_feature.get(i);
            let node = RawNjdNode {
                string: Some(entry.clone()),
                pos: None,
                pos_group1: None,
                pos_group2: None,
                pos_group3: None,
                ctype: None,
                cform: None,
                orig: None,
                read: None,
                pron: None,
                acc: 0,
                mora_size: 0,
                chain_rule: None,
                chain_flag: -1,
            };
            proof {
                assert(target[i as int] == node_of_feature(mecab_feature@[i as int]));
                assert(node@ =~= target[i as int]);
                assert(target.take(i + 1 as int) =~= target.take(i as int).push(target[i as int]));
            }
            let ghost lpre = list@;
            list.push(node);
            proof {
                assert(raw_nodes_of(lpre.push(node)) =~= raw_nodes_of(lpre).push(node@));
                assert(raw_nodes_of(list@) =~= base + target.take(i + 1 as int));
            }
            i += 1;
        }
        proof {
            assert(target.take(size as int) =~= target);
        }
        self.list = Some(list);
    }

    /// Extract, transform, rebuild. Every record is taken over from the
    /// analysis side in list order, the caller's transformation is applied
    /// to the extracted records, and the list is reconstructed from the
    /// transformation's output, in order, handing each record back. While
    /// the transformation runs, the list is left empty but valid.
    pub fn update<F: FnOnce(Vec<NjdNode>) -> Vec<NjdNode>>(&mut self, f: F)
        requires
            old(self).initialized(),
            forall|v: Vec<NjdNode>|
                nodes_of(v@) == old(self).nodes() ==> #[trigger] call_requires(f, (v,)),
        ensures
            final(self).initialized(),
            exists|inp: Vec<NjdNode>, out: Vec<NjdNode>|
                {
                    &&& nodes_of(inp@) == old(self).nodes()
                    &&& #[trigger] call_ensures(f, (inp,), out)
                    &&& final(self).nodes() == nodes_of(out@)
                },
    {
        let ghost old_nodes = old(self).nodes();
        let mut taken = self.list.take();
        self.list = Some(Vec::new());
        let mut raws = taken.unwrap();
        let mut extracted: Vec<NjdNode> = Vec::new();
        while raws.len() > 0
            invariant
                nodes_of(extracted@) + raw_nodes_of(raws@) =~= old_nodes,
            decreases raws.len(),
        {
            let ghost raws0 = raws@;
            let first = raws.remove(0);
            let node = NjdNode::from_raw(first);
            extracted.push(node);
            proof {
                assert(raws0 =~= seq![first] + raws@);
                assert(raw_nodes_of(raws0) =~= seq![first@] + raw_nodes_of(raws@));
                assert(nodes_of(extracted@) =~= nodes_of(extracted@.drop_last()) + seq![node@]);
                assert(nodes_of(extracted@) + raw_nodes_of(raws@) =~= old_nodes);
            }
        }
        proof {
            assert(nodes_of(extracted@) =~= old_nodes);
        }
        let ghost inp0 = extracted;
        let mut out = f(extracted);
        let ghost out0 = out;
        let mut rebuilt: Vec<RawNjdNode> = Vec::new();
        while out.len() > 0
            invariant
                raw_nodes_of(rebuilt@) + nodes_of(out@) =~= nodes_of(out0@),
            decreases out.len(),
        {
            let ghost outp = out@;
            let first = out.remove(0);
            let raw = first.into_raw();
            rebuilt.push(raw);
            proof {
                assert(outp =~= seq![first] + out@);
                assert(nodes_of(outp) =~= seq![first@] + nodes_of(out@));
                assert(raw_nodes_of(rebuilt@) =~= raw_nodes_of(rebuilt@.drop_last()) + seq![raw@]);
                assert(raw_nodes_of(rebuilt@) + nodes_of(out@) =~= nodes_of(out0@));
            }
        }
        proof {
            assert(raw_nodes_of(rebuilt@) =~= nodes_of(out0@));
            assert(nodes_of(inp0@) == old_nodes);
            assert(call_ensures(f, (inp0,), out0));
        }
        self.list = Some(rebuilt);
    }
}

/// Round trip: extracting a list of records, applying a transformation that
/// can only return its input unchanged, and rebuilding reproduces exactly
/// the record values the list held, in the same order — in particular, every
/// string field that was absent stays absent and every present field keeps
/// its exact text. `pre` is the record values before the update and `post`
/// those that `update`'s contract allows after it.
pub proof fn lemma_identity_update_round_trip<F: FnOnce(Vec<NjdNode>) -> Vec<NjdNode>>(
    f: F,
    pre: Seq<NodeView>,
    post: Seq<NodeView>,
)
    requires
        forall|inp: Vec<NjdNode>, out: Vec<NjdNode>| call_ensures(f, (inp,), out) ==> out == inp,
        exists|inp: Vec<NjdNode>, out: Vec<NjdNode>|
            {
                &&& nodes_of(inp@) == pre
                &&& #[trigger] call_ensures(f, (inp,), out)
                &&& post == nodes_of(out@)
            },
    ensures
        post == pre,
{
}

} // verus!
