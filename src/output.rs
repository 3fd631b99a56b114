//! The live display topology as the compositor reports it, and the identities
//! derived from it.
use vstd::prelude::*;
use vstd::relations::*;
use vstd::seq_lib::*;
use crate::table::SameKey;
use crate::text::{join, joined, lemma_text_order_total, lex_le, text_le, text_order, texts_of};

verus! {

broadcast use vstd::seq_lib::group_to_multiset_ensures;

/// The area a display covers in the compositor's layout.
#[derive(Clone, Copy, Debug, PartialEq, Eq)]
pub struct Rect {
    pub x: i32,
    pub y: i32,
    pub width: i32,
    pub height: i32,
}

/// One connected display as the compositor reports it.
#[derive(Clone, Debug)]
pub struct Output {
    /// The connector name by which the compositor addresses the display.
    pub name: String,
    pub make: String,
    pub model: String,
    pub serial: String,
    pub active: bool,
    pub rect: Rect,
    /// The transform in use, such as `normal`, `90` or `flipped-180`.
    pub transform: Option<String>,
    /// The scale in use, in thousandths (1500 stands for 1.5).
    pub scale_milli: Option<i64>,
    /// The refresh rate of the mode in use.
    pub refresh: Option<i32>,
}

/// One workspace as the compositor reports it.
#[derive(Clone, Debug)]
pub struct Workspace {
    pub name: String,
    /// The name of the output the workspace is assigned to.
    pub output: String,
}

/// A stable identifier of one physical display: its make, model and serial
/// joined by single spaces. Two displays of the same make and model that both
/// report an empty serial get the same identifier.
#[derive(Clone, Debug)]
pub struct OutputIdentifier(pub String);

/// The identifier text of a display.
pub open spec fn output_identity(o: Output) -> Seq<char> {
    o.make@ + " "@ + o.model@ + " "@ + o.serial@
}

/// The identifier texts of a list of identifiers, in order.
pub open spec fn identifier_texts(ids: Seq<OutputIdentifier>) -> Seq<Seq<char>> {
    ids.map_values(|i: OutputIdentifier| i.0@)
}

/// The identifier texts of a list of displays, in order.
pub open spec fn output_identities(outputs: Seq<Output>) -> Seq<Seq<char>> {
    outputs.map_values(|o: Output| output_identity(o))
}

/// The identity of a set of connected displays: their identifier texts in
/// lexicographic order, whatever the order in which they are listed.
pub open spec fn topology_of(outputs: Seq<Output>) -> Seq<Seq<char>> {
    output_identities(outputs).sort_by(text_order())
}

impl View for OutputIdentifier {
    type V = Seq<char>;

    open spec fn view(&self) -> Seq<char> {
        self.0@
    }
}

impl SameKey for OutputIdentifier {
    fn same_key(&self, other: &Self) -> (r: bool) {
        self.0 == other.0
    }
}

impl OutputIdentifier {
    /// The identifier of a display.
    pub fn of_output(output: &Output) -> (r: OutputIdentifier)
        ensures
            r.0@ == output_identity(*output),
    {
        let mut s = output.make.clone();
        s.append(" ");
        s.append(output.model.as_str());
        s.append(" ");
        s.append(output.serial.as_str());
        OutputIdentifier(s)
    }
}

/// The identifier of a set of connected displays, which does not depend on the
/// order in which they are listed. Default configurations are stored under it.
#[derive(Clone, Debug)]
pub struct DefaultConfigIdentifier(pub Vec<OutputIdentifier>);

impl View for DefaultConfigIdentifier {
    type V = Seq<Seq<char>>;

    open spec fn view(&self) -> Seq<Seq<char>> {
        identifier_texts(self.0@)
    }
}

impl SameKey for DefaultConfigIdentifier {
    fn same_key(&self, other: &Self) -> (r: bool) {
        if self.0.len() != other.0.len() {
            assert(self@.len() != other@.len());
            return false;
        }
        let mut i: usize = 0;
        while i < self.0.len()
            invariant
                i <= self.0@.len(),
                self.0@.len() == other.0@.len(),
                forall|j: int| 0 <= j < i ==> self.0@[j].0@ == other.0@[j].0@,
            decreases self.0@.len() - i,
        {
            if self.0[i].0 != other.0[i].0 {
                assert(self@[i as int] != other@[i as int]);
                return false;
            }
            i = i + 1;
        }
        assert(self@ =~= other@);
        true
    }
}

impl DefaultConfigIdentifier {
    /// The identifiers as a bracketed list: `[a, b]`.
    pub fn to_string(&self) -> (r: String)
        ensures
            r@ == "["@ + joined(self@, ", "@) + "]"@,
    {
        let mut names: Vec<String> = Vec::new();
        let mut i: usize = 0;
        while i < self.0.len()
            invariant
                i <= self.0@.len(),
                texts_of(names@) =~= self@.take(i as int),
            decreases self.0@.len() - i,
        {
            let ghost before = names@;
            names.push(self.0[i].0.clone());
            assert(texts_of(names@) =~= texts_of(before).push(self@[i as int]));
            assert(self@.take(i + 1) =~= self@.take(i as int).push(self@[i as int]));
            i = i + 1;
        }
        assert(self@.take(self@.len() as int) =~= self@);
        let mut r = String::from_str("[");
        r.append(join(&names, ", ").as_str());
        r.append("]");
        r
    }


    /// The identifier of a set of displays with identifiers `identifiers`,
    /// listed in any order.
    pub fn from_identifiers(identifiers: Vec<OutputIdentifier>) -> (r: DefaultConfigIdentifier)
        ensures
            r@ == identifier_texts(identifiers@).sort_by(text_order()),
    {
        let ghost texts = identifier_texts(identifiers@);
        let mut sorted: Vec<OutputIdentifier> = Vec::new();
        let mut i: usize = 0;
        proof {
            lemma_text_order_total();
        }
        while i < identifiers.len()
            invariant
                i <= identifiers.len(),
                identifier_texts(identifiers@) == texts,
                total_ordering(text_order()),
                sorted_by(identifier_texts(sorted@), text_order()),
                identifier_texts(sorted@).to_multiset() == texts.take(i as int).to_multiset(),
            decreases identifiers.len() - i,
        {
            let id = OutputIdentifier(identifiers[i].0.clone());
            let ghost before = identifier_texts(sorted@);
            let mut p: usize = 0;
            while p < sorted.len() && text_le(&sorted[p].0, &id.0)
                invariant
                    p <= sorted.len(),
                    before == identifier_texts(sorted@),
                    forall|k: int| 0 <= k < p ==> lex_le(#[trigger] before[k], id.0@),
                decreases sorted.len() - p,
            {
                p = p + 1;
            }
            proof {
                assert forall|k: int| p <= k < before.len() implies lex_le(
                    id.0@,
                    #[trigger] before[k],
                ) by {
                    assert(text_order()(before[p as int], id.0@) || text_order()(
                        id.0@,
                        before[p as int],
                    ));
                    if k > p {
                        assert(text_order()(before[p as int], before[k]));
                    }
                }
            }
            sorted.insert(p, id);
            proof {
                let after = identifier_texts(sorted@);
                assert(after =~= before.insert(p as int, id.0@));
                assert forall|a: int, b: int| 0 <= a < b < after.len() implies #[trigger] text_order()(
                    after[a],
                    after[b],
                ) by {
                    if b < p {
                    } else if a < p && b == p {
                    } else if a < p {
                        assert(text_order()(after[a], id.0@));
                        assert(text_order()(id.0@, after[b]));
                    } else if a == p {
                    } else {
                        assert(after[a] == before[a - 1]);
                        assert(after[b] == before[b - 1]);
                    }
                }
                assert(texts.take(i + 1) =~= texts.take(i as int).push(id.0@));
            }
            i = i + 1;
        }
        proof {
            assert(texts.take(identifiers.len() as int) =~= texts);
            texts.lemma_sort_by_ensures(text_order());
            lemma_sorted_unique(identifier_texts(sorted@), texts.sort_by(text_order()), text_order());
        }
        DefaultConfigIdentifier(sorted)
    }

    /// The identifier of the displays `outputs`.
    pub fn from_outputs(outputs: &Vec<Output>) -> (r: DefaultConfigIdentifier)
        ensures
            r@ == topology_of(outputs@),
    {
        let mut identifiers: Vec<OutputIdentifier> = Vec::new();
        let mut i: usize = 0;
        while i < outputs.len()
            invariant
                i <= outputs@.len(),
                identifier_texts(identifiers@) =~= output_identities(outputs@.take(i as int)),
            decreases outputs@.len() - i,
        {
            let ghost before = identifiers@;
            identifiers.push(OutputIdentifier::of_output(&outputs[i]));
            assert(identifier_texts(identifiers@) =~= identifier_texts(before).push(
                output_identity(outputs@[i as int]),
            ));
            assert(outputs@.take(i + 1) =~= outputs@.take(i as int).push(outputs@[i as int]));
            i = i + 1;
        }
        assert(outputs@.take(outputs@.len() as int) =~= outputs@);
        DefaultConfigIdentifier::from_identifiers(identifiers)
    }
}


proof fn lemma_identities_permutation(a: Seq<Output>, b: Seq<Output>)
    requires
        a.to_multiset() == b.to_multiset(),
    ensures
        output_identities(a).to_multiset() == output_identities(b).to_multiset(),
    decreases a.len(),
{
    broadcast use vstd::multiset::group_multiset_axioms;

    if a.len() == 0 {
        to_multiset_len(a);
        to_multiset_len(b);
        assert(b.len() == 0);
        assert(output_identities(a) =~= output_identities(b));
    } else {
        let x = a.last();
        let rest = a.drop_last();
        assert(a =~= rest.push(x));
        assert(b.to_multiset().count(x) > 0);
        let j = choose|j: int| 0 <= j < b.len() && b[j] == x;
        let b_rest = b.remove(j);
        assert(b_rest.to_multiset() =~= rest.to_multiset());
        lemma_identities_permutation(rest, b_rest);
        assert(output_identities(a) =~= output_identities(rest).push(output_identity(x)));
        assert(output_identities(b) =~= output_identities(b_rest).insert(j, output_identity(x)));
    }
}

/// The identity of a set of connected displays does not depend on the order in
/// which they are listed: any two listings with the same displays, each as
/// often, have the same identity.
pub proof fn lemma_topology_order_independent(listed: Seq<Output>, permuted: Seq<Output>)
    requires
        listed.to_multiset() == permuted.to_multiset(),
    ensures
        topology_of(listed) == topology_of(permuted),
{
    lemma_text_order_total();
    lemma_identities_permutation(listed, permuted);
    output_identities(listed).lemma_sort_by_ensures(text_order());
    output_identities(permuted).lemma_sort_by_ensures(text_order());
    lemma_sorted_unique(topology_of(listed), topology_of(permuted), text_order());
}

/// The name under which a custom configuration is stored.
#[derive(Clone, Debug)]
pub struct CustomConfigIdentfier(pub String);

impl View for CustomConfigIdentfier {
    type V = Seq<char>;

    open spec fn view(&self) -> Seq<char> {
        self.0@
    }
}

impl CustomConfigIdentfier {
    /// The name.
    pub fn to_string(&self) -> (r: String)
        ensures
            r@ == self@,
    {
        self.0.clone()
    }
}

impl SameKey for CustomConfigIdentfier {
    fn same_key(&self, other: &Self) -> (r: bool) {
        self.0 == other.0
    }
}

} // verus!
