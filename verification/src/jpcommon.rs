//! The label-generation bridge: takes over the linguistic feature list's
//! records, generates the label sequence from them, and exposes that
//! sequence as a finite iteration that can be restarted by asking for a
//! fresh iterator.

use crate::njd::{raw_nodes_of, Njd, NodeView, RawNjdNode};
use crate::resource::Resource;
use vstd::prelude::*;

verus! {

/// The text that label generation derives from one record: its
/// pronunciation if present, else its surface string, else the empty text.
/// The full label grammar is the analysis model's concern.
pub open spec fn label_of(n: NodeView) -> Seq<char> {
    match n.pron {
        Some(p) => p,
        None => match n.string {
            Some(s) => s,
            None => Seq::empty(),
        },
    }
}

/// The label table that `make_label` produces: one label per record, in
/// record order; its count fits the table's 32-bit size field.
pub struct JpCommonLabelFeature {
    labels: Vec<String>,
}

impl JpCommonLabelFeature {
    #[verifier::type_invariant]
    spec fn bounded(&self) -> bool {
        self.labels@.len() <= i32::MAX as int
    }
}

impl View for JpCommonLabelFeature {
    type V = Seq<Seq<char>>;

    closed spec fn view(&self) -> Seq<Seq<char>> {
        self.labels@.map_values(|s: String| s@)
    }
}

/// A fresh, finite pass over a label table. Every call of
/// `get_label_feature_to_iter` hands out a new one starting at the first
/// label, so the sequence can be walked again from the start.
pub struct JpCommonLabelFeatureIter<'a> {
    label_features: &'a JpCommonLabelFeature,
    index: usize,
}

impl<'a> JpCommonLabelFeatureIter<'a> {
    /// The labels being walked.
    pub closed spec fn labels(&self) -> Seq<Seq<char>> {
        self.label_features@
    }

    /// How many labels have been handed out.
    pub closed spec fn position(&self) -> int {
        self.index as int
    }

    /// The next label, or nothing once every label has been handed out.
    pub fn next(&mut self) -> (r: Option<&'a str>)
        ensures
            final(self).labels() == old(self).labels(),
            match r {
                Some(s) => old(self).position() < old(self).labels().len() && s@ == old(
                    self,
                ).labels()[old(self).position()] && final(self).position() == old(self).position()
                    + 1,
                None => old(self).position() >= old(self).labels().len() && final(self).position()
                    == old(self).position(),
            },
    {
        if self.index < self.label_features.labels.len() {
            let s = self.label_features.labels[self.index].as_str();
            self.index = self.index + 1;
            Some(s)
        } else {
            None
        }
    }
}

struct JpState {
    nodes: Vec<RawNjdNode>,
    labels: Option<JpCommonLabelFeature>,
}

impl JpState {
    #[verifier::type_invariant]
    spec fn bounded(&self) -> bool {
        self.nodes@.len() <= i32::MAX as int
    }
}

/// The label-generation resource: uninitialized until `initialize`; then it
/// takes over record lists and generates label sequences from them.
pub struct JpCommon {
    state: Option<JpState>,
}

impl JpCommon {
    /// The record values the generator currently holds.
    pub closed spec fn nodes(&self) -> Seq<NodeView> {
        raw_nodes_of(self.state->Some_0.nodes@)
    }

    /// The labels of the last generation, if one has run.
    pub closed spec fn labels(&self) -> Option<Seq<Seq<char>>> {
        match self.state->Some_0.labels {
            Some(f) => Some(f@),
            None => None,
        }
    }
}

impl Default for JpCommon {
    /// A label generator starts uninitialized.
    fn default() -> (r: Self)
        ensures
            !r.initialized(),
    {
        JpCommon { state: None }
    }
}

impl Resource for JpCommon {
    closed spec fn initialized(&self) -> bool {
        self.state is Some
    }

    fn make() -> (r: Self) {
        JpCommon { state: None }
    }

    fn is_initialized(&self) -> (b: bool) {
        self.state.is_some()
    }

    /// Sets up the generator with no records and no label table.
    fn initialize(&mut self) -> (ok: bool)
        ensures
            ok,
            final(self).nodes() == Seq::<NodeView>::empty(),
            final(self).labels() is None,
    {
        self.state = Some(JpState { nodes: Vec::new(), labels: None });
        true
    }

    /// Releases the records and the label table.
    fn clear(&mut self) -> (ok: bool) {
        self.state = None;
        true
    }
}

impl JpCommon {
    /// Reset the generator: releases the records and the label table, as a
    /// fresh initialization would.
    pub fn refresh(&mut self)
        requires
            old(self).initialized(),
        ensures
            final(self).initialized(),
            final(self).nodes() == Seq::<NodeView>::empty(),
            final(self).labels() is None,
    {
        self.state = Some(JpState { nodes: Vec::new(), labels: None });
    }

    /// Take over the feature list's records, replacing the generator's
    /// records; an earlier label table stays until the next generation.
    pub fn njd2jpcommon(&mut self, njd: &Njd)
        requires
            old(self).initialized(),
            njd.initialized(),
            njd.nodes().len() <= i32::MAX as int,
        ensures
            final(self).initialized(),
            final(self).nodes() == njd.nodes(),
            final(self).labels() == old(self).labels(),
    {
        let src = njd.raw_nodes();
        let n = src.len();
        let mut copied: Vec<RawNjdNode> = Vec::new();
        let mut i: usize = 0;
        while i < n
            invariant
                i <= n,
                n == src@.len(),
                raw_nodes_of(copied@) =~= raw_nodes_of(src@).take(i as int),
            decreases n - i,
        {
            let node = src[i].duplicate();
            let ghost cpre = copied@;
            copied.push(node);
            proof {
                assert(raw_nodes_of(copied@) =~= raw_nodes_of(cpre).push(node@));
                assert(raw_nodes_of(src@).take(i + 1 as int) =~= raw_nodes_of(src@).take(
                    i as int,
                ).push(raw_nodes_of(src@)[i as int]));
            }
            i += 1;
        }
        proof {
            assert(raw_nodes_of(src@).take(n as int) =~= raw_nodes_of(src@));
        }
        let mut taken = self.state.take();
        let st = taken.unwrap();
        let JpState { nodes: _, labels } = st;
        self.state = Some(JpState { nodes: copied, labels });
    }

    /// Generate the label sequence from the records the generator holds:
    /// one label per record, in record order, replacing any earlier table.
    pub fn make_label(&mut self)
        requires
            old(self).initialized(),
        ensures
            final(self).initialized(),
            final(self).nodes() == old(self).nodes(),
            final(self).labels() == Some(
                old(self).nodes().map_values(|n: NodeView| label_of(n)),
            ),
    {
        let mut taken = self.state.take();
        let st = taken.unwrap();
        proof {
            use_type_invariant(&st);
        }
        let JpState { nodes, labels: _ } = st;
        let ghost target = raw_nodes_of(nodes@).map_values(|n: NodeView| label_of(n));
        let n = nodes.len();
        let mut labels: Vec<String> = Vec::new();
        let mut i: usize = 0;
        while i < n
            invariant
                i <= n,
                n == nodes@.len(),
                target == raw_nodes_of(nodes@).map_values(|n: NodeView| label_of(n)),
                labels@.map_values(|s: String| s@) =~= target.take(i as int),
            decreases n - i,
        {
            let node = &nodes[i];
            let lab = match node.pron_ref() {
                Some(p) => p.clone(),
                None => match node.string_ref() {
                    Some(s) => s.clone(),
                    None => String::new(),
                },
            };
            proof {
                assert(lab@ == label_of(nodes@[i as int]@));
                assert(target[i as int] == label_of(raw_nodes_of(nodes@)[i as int]));
            }
            let ghost lpre = labels@;
            labels.push(lab);
            proof {
                assert(labels@.map_values(|s: String| s@) =~= lpre.map_values(|s: String| s@).push(
                    lab@,
                ));
                assert(target.take(i + 1 as int) =~= target.take(i as int).push(target[i as int]));
            }
            i += 1;
        }
        proof {
            assert(target.take(n as int) =~= target);
        }
        self.state = Some(JpState { nodes, labels: Some(JpCommonLabelFeature { labels }) });
    }

    /// The number of labels in the table; 0 before the first generation.
    pub fn get_label_size(&self) -> (r: i32)
        requires
            self.initialized(),
        ensures
            match self.labels() {
                None => r == 0,
                Some(ls) => r as int == ls.len(),
            },
    {
        match &self.state {
            Some(st) => match &st.labels {
                Some(f) => {
                    proof {
                        use_type_invariant(f);
                    }
                    f.labels.len() as i32
                },
                None => 0,
            },
            None => unreached(),
        }
    }

    /// The label table of the last generation; absent (not merely empty)
    /// before one has run.
    pub(crate) fn get_label_feature_raw(&self) -> (r: Option<&JpCommonLabelFeature>)
        requires
            self.initialized(),
        ensures
            match r {
                Some(f) => self.labels() == Some(f@),
                None => self.labels() is None,
            },
    {
        match &self.state {
            Some(st) => st.labels.as_ref(),
            None => unreached(),
        }
    }

    /// A fresh iteration over the label table, starting at the first label;
    /// absent before the first generation.
    pub fn get_label_feature_to_iter(&self) -> (r: Option<JpCommonLabelFeatureIter<'_>>)
        requires
            self.initialized(),
        ensures
            match r {
                Some(it) => self.labels() == Some(it.labels()) && it.position() == 0,
                None => self.labels() is None,
            },
    {
        match self.get_label_feature_raw() {
            Some(label_features) => Some(JpCommonLabelFeatureIter { label_features, index: 0 }),
            None => None,
        }
    }
}

} // verus!
