//! Scene graph resolver: walks the decoder's transform/group/shape node
//! array depth-first, composes names along parent chains (a parent and a
//! local name join as `parent-local`), and produces a flat arena of typed
//! scene nodes plus two indexes: model index to resolved name, and name to
//! node, where a name reached later in the traversal overwrites an earlier
//! one.

use vstd::prelude::*;
use vstd::string::StringExecFns;

verus! {

/// The local affine placement of a transform node: an integer translation
/// plus the editor's packed rotation byte.
#[derive(Clone, Copy, PartialEq, Eq, Structural, Debug)]
pub struct NodeTransform {
    pub tx: i32,
    pub ty: i32,
    pub tz: i32,
    pub rotation: u8,
}

/// One node of the decoder's raw scene array; children are indices into
/// the same array.
#[derive(Clone, Debug)]
pub enum RawSceneNode {
    /// A placement node with an optional name and a single child.
    Transform { name: Option<String>, transform: NodeTransform, layer_id: u32, child: u32 },
    /// An unnamed grouping of child nodes.
    Group { children: Vec<u32> },
    /// A terminal node referencing one or more models by index.
    Shape { models: Vec<u32> },
}

/// A resolved scene node: its composed name, placement, and arena indices
/// of its children. Only shape-derived nodes carry model indices.
#[derive(Clone, Debug)]
pub struct VoxelNode {
    pub name: Option<String>,
    pub transform: NodeTransform,
    pub layer_id: u32,
    pub children: Vec<usize>,
    pub model_ids: Vec<u32>,
}

/// A model reference with its resolved name, as the traversal finds them.
#[derive(Clone, Debug)]
pub struct NamedModel {
    pub id: u32,
    pub name: Option<String>,
}

/// The mathematical view of an optional name.
pub open spec fn name_view(o: Option<String>) -> Option<Seq<char>> {
    match o {
        Some(s) => Some(s@),
        None => None,
    }
}

/// The name a child inherits: a parent name and a local name join as
/// `parent-local`; one alone is used as it is; neither leaves the child
/// unnamed.
pub open spec fn joined_name(parent: Option<Seq<char>>, local: Option<Seq<char>>) -> Option<
    Seq<char>,
> {
    match (parent, local) {
        (Option::None, Option::None) => None,
        (Option::None, Option::Some(n)) => Some(n),
        (Option::Some(p), Option::None) => Some(p),
        (Option::Some(p), Option::Some(n)) => Some(p + seq!['-'] + n),
    }
}

/// Joins an inherited name with a node's own local name.
pub fn join_names(parent: &Option<String>, local: &Option<String>) -> (r: Option<String>)
    ensures
        name_view(r) == joined_name(name_view(*parent), name_view(*local)),
{
    match (parent, local) {
        (Option::None, Option::None) => None,
        (Option::None, Option::Some(n)) => Some(n.clone()),
        (Option::Some(p), Option::None) => Some(p.clone()),
        (Option::Some(p), Option::Some(n)) => {
            proof {
                reveal_strlit("-");
            }
            let joined = p.clone().concat("-").concat(n.as_str());
            proof {
                assert(joined@ =~= p@ + seq!['-'] + n@);
            }
            Some(joined)
        },
    }
}

/// The (model index, resolved name) pairs that the depth-first traversal
/// from node `idx` yields, carrying an inherited name: a transform joins
/// its own name and recurses into its child; a group passes the inherited
/// name unchanged to every child; a shape yields one pair per model. The
/// fuel bounds the walk on malformed (cyclic) graphs.
pub open spec fn scene_models_spec(
    graph: Seq<RawSceneNode>,
    idx: int,
    name: Option<Seq<char>>,
    fuel: nat,
) -> Seq<(u32, Option<Seq<char>>)>
    decreases fuel, 0int,
{
    if fuel == 0 || idx < 0 || idx >= graph.len() {
        Seq::empty()
    } else {
        match graph[idx] {
            RawSceneNode::Transform { name: local, child, .. } => scene_models_spec(
                graph,
                child as int,
                joined_name(name, name_view(local)),
                (fuel - 1) as nat,
            ),
            RawSceneNode::Group { children } => scene_models_children(
                graph,
                children@,
                name,
                (fuel - 1) as nat,
            ),
            RawSceneNode::Shape { models } => models@.map_values(|id: u32| (id, name)),
        }
    }
}

/// The pairs yielded by a group's children, in order.
pub open spec fn scene_models_children(
    graph: Seq<RawSceneNode>,
    children: Seq<u32>,
    name: Option<Seq<char>>,
    fuel: nat,
) -> Seq<(u32, Option<Seq<char>>)>
    decreases fuel, children.len(), 1int,
{
    if children.len() == 0 {
        Seq::empty()
    } else {
        scene_models_spec(graph, children[0] as int, name, fuel) + scene_models_children(
            graph,
            children.skip(1),
            name,
            fuel,
        )
    }
}

/// The view of a named-model pair.
pub open spec fn named_model_view(nm: NamedModel) -> (u32, Option<Seq<char>>) {
    (nm.id, name_view(nm.name))
}

/// Walks the scene graph depth-first from node `idx`, resolving the name
/// of every model reference it reaches. A transform node joins its name
/// with the inherited one; a group passes the inherited name on; a shape
/// yields its models under the name that reached it. The fuel bounds the
/// walk; passing the graph length as fuel covers every acyclic graph.
pub fn parse_scene_graph(
    graph: &Vec<RawSceneNode>,
    idx: usize,
    node_name: &Option<String>,
    fuel: u32,
) -> (r: Vec<NamedModel>)
    ensures
        r@.map_values(|nm: NamedModel| named_model_view(nm)) == scene_models_spec(
            graph@,
            idx as int,
            name_view(*node_name),
            fuel as nat,
        ),
    decreases fuel, 0int,
{
    let ghost goal = scene_models_spec(graph@, idx as int, name_view(*node_name), fuel as nat);
    if fuel == 0 || idx >= graph.len() {
        let r: Vec<NamedModel> = Vec::new();
        proof {
            assert(r@.map_values(|nm: NamedModel| named_model_view(nm)) =~= goal);
        }
        return r;
    }
    match &graph[idx] {
        RawSceneNode::Transform { name, child, .. } => {
            let joined = join_names(node_name, name);
            let r = parse_scene_graph(graph, *child as usize, &joined, fuel - 1);
            proof {
                assert(r@.map_values(|nm: NamedModel| named_model_view(nm)) =~= goal);
            }
            r
        },
        RawSceneNode::Group { children } => {
            let mut r: Vec<NamedModel> = Vec::new();
            proof {
                assert(children@.skip(0) =~= children@);
            }
            let mut i: usize = 0;
            while i < children.len()
                invariant
                    i <= children@.len(),
                    fuel >= 1,
                    r@.map_values(|nm: NamedModel| named_model_view(nm)) + scene_models_children(
                        graph@,
                        children@.skip(i as int),
                        name_view(*node_name),
                        (fuel - 1) as nat,
                    ) =~= scene_models_children(
                        graph@,
                        children@,
                        name_view(*node_name),
                        (fuel - 1) as nat,
                    ),
                decreases children@.len() - i,
            {
                let mut sub = parse_scene_graph(
                    graph,
                    children[i] as usize,
                    node_name,
                    fuel - 1,
                );
                let ghost r_pre = r@;
                let ghost sub_view = sub@;
                while sub.len() > 0
                    invariant
                        r@ + sub@ =~= r_pre + sub_view,
                    decreases sub@.len(),
                {
                    let nm = sub.remove(0);
                    r.push(nm);
                    proof {
                        assert(r@ + sub@ =~= r_pre + sub_view);
                    }
                }
                proof {
                    assert(r@ =~= r@ + sub@);
                    assert(r@ =~= r_pre + sub_view);
                    assert(children@.skip(i as int).skip(1) =~= children@.skip(i + 1));
                    assert(children@.skip(i as int)[0] == children@[i as int]);
                    assert(r@.map_values(|nm: NamedModel| named_model_view(nm)) =~= r_pre.map_values(
                        |nm: NamedModel| named_model_view(nm),
                    ) + sub_view.map_values(|nm: NamedModel| named_model_view(nm)));
                }
                i += 1;
            }
            proof {
                assert(children@.skip(children@.len() as int) =~= Seq::<u32>::empty());
                assert(r@.map_values(|nm: NamedModel| named_model_view(nm)) =~= goal);
            }
            r
        },
        RawSceneNode::Shape { models } => {
            let mut r: Vec<NamedModel> = Vec::new();
            let mut i: usize = 0;
            while i < models.len()
                invariant
                    i <= models@.len(),
                    r@.len() == i,
                    forall|j: int| 0 <= j < i ==> (#[trigger] r@[j]).id == models@[j]
                        && name_view(r@[j].name) == name_view(*node_name),
                decreases models@.len() - i,
            {
                r.push(NamedModel { id: models[i], name: clone_name(node_name) });
                i += 1;
            }
            proof {
                assert(r@.map_values(|nm: NamedModel| named_model_view(nm)) =~= models@.map_values(
                    |id: u32| (id, name_view(*node_name)),
                ));
                assert(r@.map_values(|nm: NamedModel| named_model_view(nm)) =~= goal);
            }
            r
        },
    }
}

/// A copy of an optional name.
pub fn clone_name(o: &Option<String>) -> (r: Option<String>)
    ensures
        name_view(r) == name_view(*o),
{
    match o {
        Option::Some(s) => Some(s.clone()),
        Option::None => None,
    }
}


/// One decimal digit as a character.
pub open spec fn digit_char(d: int) -> char {
    ((48 + d) as u8) as char
}

/// The decimal digits of a non-negative number, most significant first.
pub open spec fn dec_digits(n: int) -> Seq<char>
    decreases n,
{
    if n < 10 {
        seq![digit_char(n)]
    } else {
        dec_digits(n / 10) + seq![digit_char(n % 10)]
    }
}

/// One decimal digit as a string slice.
fn digit_str(d: u32) -> (s: &'static str)
    requires
        d < 10,
    ensures
        s@ == seq![digit_char(d as int)],
{
    proof {
        reveal_strlit("0");
        reveal_strlit("1");
        reveal_strlit("2");
        reveal_strlit("3");
        reveal_strlit("4");
        reveal_strlit("5");
        reveal_strlit("6");
        reveal_strlit("7");
        reveal_strlit("8");
        reveal_strlit("9");
    }
    match d {
        0 => "0",
        1 => "1",
        2 => "2",
        3 => "3",
        4 => "4",
        5 => "5",
        6 => "6",
        7 => "7",
        8 => "8",
        _ => "9",
    }
}

/// The reversed digit values turned into characters, last value first.
pub open spec fn rev_digit_chars(s: Seq<u32>) -> Seq<char> {
    Seq::new(s.len(), |i: int| digit_char(s[s.len() - 1 - i] as int))
}

/// Renders a number in decimal.
pub fn u32_to_decimal(n: u32) -> (s: String)
    ensures
        s@ == dec_digits(n as int),
{
    let mut rev: Vec<u32> = Vec::new();
    let mut m = n;
    while m >= 10
        invariant
            forall|j: int| 0 <= j < rev@.len() ==> #[trigger] rev@[j] < 10,
            dec_digits(n as int) =~= dec_digits(m as int) + rev_digit_chars(rev@),
        decreases m,
    {
        let d = m % 10;
        rev.push(d);
        proof {
            assert(rev_digit_chars(rev@) =~= seq![digit_char(d as int)] + rev_digit_chars(
                rev@.drop_last(),
            ));
            assert(dec_digits(m as int) == dec_digits(m as int / 10) + seq![
                digit_char(m as int % 10),
            ]);
        }
        m = m / 10;
        proof {
            assert(dec_digits(n as int) =~= dec_digits(m as int) + rev_digit_chars(rev@));
        }
    }
    let mut s = String::new();
    s.append(digit_str(m));
    let ghost rv = rev@;
    let mut i: usize = 0;
    while i < rev.len()
        invariant
            rev@ == rv,
            forall|j: int| 0 <= j < rv.len() ==> #[trigger] rv[j] < 10,
            i <= rv.len(),
            m < 10,
            s@ =~= seq![digit_char(m as int)] + rev_digit_chars(rv).take(i as int),
        decreases rv.len() - i,
    {
        let d = rev[rev.len() - 1 - i];
        s.append(digit_str(d));
        proof {
            assert(rev_digit_chars(rv)[i as int] == digit_char(rv[rv.len() - 1 - i] as int));
            assert(s@ =~= seq![digit_char(m as int)] + rev_digit_chars(rv).take(i + 1));
        }
        i += 1;
    }
    proof {
        assert(rev_digit_chars(rv).take(rv.len() as int) =~= rev_digit_chars(rv));
        assert(s@ =~= dec_digits(n as int));
    }
    s
}

/// The characters of the synthetic name prefix for unnamed models.
pub open spec fn model_prefix_chars() -> Seq<char> {
    seq!['m', 'o', 'd', 'e', 'l', '-']
}

/// The resolved name of a model index after applying the traversal's pairs
/// in order: the pair reached latest wins.
pub open spec fn resolved_name(pairs: Seq<(u32, Option<Seq<char>>)>, id: int) -> Option<Seq<char>>
    decreases pairs.len(),
{
    if pairs.len() == 0 {
        None
    } else if pairs.last().0 == id {
        pairs.last().1
    } else {
        resolved_name(pairs.drop_last(), id)
    }
}

/// The display name of a model index: its resolved name, or the synthetic
/// `model-<index>` fallback when the traversal names it nowhere.
pub open spec fn model_display_name(pairs: Seq<(u32, Option<Seq<char>>)>, id: int) -> Seq<char> {
    match resolved_name(pairs, id) {
        Some(n) => n,
        None => model_prefix_chars() + dec_digits(id),
    }
}

/// Assigns every model its final name: the resolved name of the latest
/// traversal pair naming it, with the synthetic `model-<index>` fallback
/// for models the traversal leaves unnamed.
pub fn assemble_model_names(pairs: &Vec<NamedModel>, n_models: usize) -> (r: Vec<String>)
    requires
        n_models <= u32::MAX,
    ensures
        r@.len() == n_models,
        forall|i: int| 0 <= i < n_models ==> (#[trigger] r@[i])@ == model_display_name(
            pairs@.map_values(|nm: NamedModel| named_model_view(nm)),
            i,
        ),
{
    let ghost pv = pairs@.map_values(|nm: NamedModel| named_model_view(nm));
    let mut names: Vec<Option<String>> = Vec::new();
    let mut i: usize = 0;
    while i < n_models
        invariant
            i <= n_models,
            names@.len() == i,
            forall|j: int| 0 <= j < i ==> name_view(#[trigger] names@[j]) == resolved_name(
                pv.take(0),
                j,
            ),
        decreases n_models - i,
    {
        names.push(None);
        i += 1;
    }
    let mut k: usize = 0;
    while k < pairs.len()
        invariant
            pv == pairs@.map_values(|nm: NamedModel| named_model_view(nm)),
            k <= pairs@.len(),
            names@.len() == n_models,
            forall|j: int| 0 <= j < n_models ==> name_view(#[trigger] names@[j]) == resolved_name(
                pv.take(k as int),
                j,
            ),
        decreases pairs@.len() - k,
    {
        let nm = &pairs[k];
        proof {
            assert(pv.take(k + 1).drop_last() =~= pv.take(k as int));
            assert(pv.take(k + 1).last() == pv[k as int]);
            assert(pv[k as int] == named_model_view(pairs@[k as int]));
        }
        if (nm.id as usize) < n_models {
            let updated = clone_name(&nm.name);
            names.set(nm.id as usize, updated);
        }
        k += 1;
    }
    proof {
        assert(pv.take(pairs@.len() as int) =~= pv);
    }
    let mut r: Vec<String> = Vec::new();
    let mut j: usize = 0;
    while j < n_models
        invariant
            j <= n_models,
            n_models <= u32::MAX,
            names@.len() == n_models,
            r@.len() == j,
            forall|t: int| 0 <= t < n_models ==> name_view(#[trigger] names@[t]) == resolved_name(
                pv,
                t,
            ),
            forall|t: int| 0 <= t < j ==> (#[trigger] r@[t])@ == model_display_name(pv, t),
        decreases n_models - j,
    {
        let name: String = match &names[j] {
            Option::Some(n) => {
                proof {
                    assert(name_view(names@[j as int]) == resolved_name(pv, j as int));
                    assert(names@[j as int] matches Option::Some(x) && x@ == n@);
                }
                n.clone()
            },
            Option::None => {
                proof {
                    reveal_strlit("model-");
                }
                let prefix = String::from_str("model-");
                proof {
                    assert(prefix@ =~= model_prefix_chars());
                }
                let digits = u32_to_decimal(j as u32);
                prefix.concat(digits.as_str())
            },
        };
        proof {
            assert(name@ == model_display_name(pv, j as int));
        }
        r.push(name);
        j += 1;
    }
    r
}

/// A named sub-scene entry: a composed node name and the arena index of
/// the node it addresses.
#[derive(Clone, Debug)]
pub struct NamedSubasset {
    pub name: String,
    pub node: usize,
}

/// Whether every child index stored in an arena stays inside it.
pub open spec fn arena_closed(nodes: Seq<VoxelNode>) -> bool {
    forall|j: int, c: int| 0 <= j < nodes.len() && 0 <= c < nodes[j].children@.len()
        ==> #[trigger] nodes[j].children@[c] < nodes.len()
}

/// The local name of a transform node; nothing for the other kinds.
pub open spec fn transform_local_name(n: RawSceneNode) -> Option<Seq<char>> {
    match n {
        RawSceneNode::Transform { name, .. } => name_view(name),
        _ => None,
    }
}

/// Whether the arena node at `ni` resolves the raw subtree rooted at
/// `graph[idx]` under an inherited name: a transform-derived node carries
/// the composed name, placement and layer of its raw node and one child
/// entry whose node resolves the raw child under the composed name; a
/// group-derived node carries one entry per raw child, each resolving that
/// child under the unchanged inherited name, in order; a shape-derived
/// node carries exactly the raw node's model indices. Child entries point
/// strictly forward in the arena. Out of fuel, or off the raw array, the
/// node is an empty leaf.
pub open spec fn arena_resolves(
    graph: Seq<RawSceneNode>,
    idx: int,
    inherited: Option<Seq<char>>,
    fuel: nat,
    nodes: Seq<VoxelNode>,
    ni: int,
) -> bool
    decreases fuel, 0int,
{
    &&& 0 <= ni < nodes.len()
    &&& if fuel == 0 || idx < 0 || idx >= graph.len() {
        &&& nodes[ni].name is None
        &&& nodes[ni].children@.len() == 0
        &&& nodes[ni].model_ids@.len() == 0
    } else {
        match graph[idx] {
            RawSceneNode::Transform { name: local, transform, layer_id, child } => {
                &&& name_view(nodes[ni].name) == joined_name(inherited, name_view(local))
                &&& nodes[ni].transform == transform
                &&& nodes[ni].layer_id == layer_id
                &&& nodes[ni].model_ids@.len() == 0
                &&& nodes[ni].children@.len() == 1
                &&& (nodes[ni].children@[0] as int) > ni
                &&& arena_resolves(
                    graph,
                    child as int,
                    joined_name(inherited, name_view(local)),
                    (fuel - 1) as nat,
                    nodes,
                    nodes[ni].children@[0] as int,
                )
            },
            RawSceneNode::Group { children } => {
                &&& nodes[ni].name is None
                &&& nodes[ni].model_ids@.len() == 0
                &&& nodes[ni].children@.len() == children@.len()
                &&& forall|c: int| 0 <= c < children@.len() ==> ((
                    #[trigger] nodes[ni].children@[c]) as int) > ni && arena_resolves(
                    graph,
                    children@[c] as int,
                    inherited,
                    (fuel - 1) as nat,
                    nodes,
                    nodes[ni].children@[c] as int,
                )
            },
            RawSceneNode::Shape { models } => {
                &&& nodes[ni].name is None
                &&& nodes[ni].children@.len() == 0
                &&& nodes[ni].model_ids@ == models@
            },
        }
    }
}

/// Resolution facts survive arena growth and changes below the node: a
/// subtree references only indices at or above its root.
pub proof fn lemma_arena_resolves_frame(
    graph: Seq<RawSceneNode>,
    idx: int,
    inherited: Option<Seq<char>>,
    fuel: nat,
    nodes1: Seq<VoxelNode>,
    nodes2: Seq<VoxelNode>,
    ni: int,
    lo: int,
)
    requires
        arena_resolves(graph, idx, inherited, fuel, nodes1, ni),
        lo <= ni,
        nodes2.len() >= nodes1.len(),
        forall|j: int| lo <= j < nodes1.len() ==> nodes2[j] == nodes1[j],
    ensures
        arena_resolves(graph, idx, inherited, fuel, nodes2, ni),
    decreases fuel,
{
    assert(nodes2[ni] == nodes1[ni]);
    if fuel == 0 || idx < 0 || idx >= graph.len() {
    } else {
        match graph[idx] {
            RawSceneNode::Transform { name: local, child, .. } => {
                lemma_arena_resolves_frame(
                    graph,
                    child as int,
                    joined_name(inherited, name_view(local)),
                    (fuel - 1) as nat,
                    nodes1,
                    nodes2,
                    nodes1[ni].children@[0] as int,
                    lo,
                );
            },
            RawSceneNode::Group { children } => {
                assert forall|c: int| 0 <= c < children@.len() implies ((
                    #[trigger] nodes2[ni].children@[c]) as int) > ni && arena_resolves(
                    graph,
                    children@[c] as int,
                    inherited,
                    (fuel - 1) as nat,
                    nodes2,
                    nodes2[ni].children@[c] as int,
                ) by {
                    assert(((nodes1[ni].children@[c]) as int) > ni && arena_resolves(
                        graph,
                        children@[c] as int,
                        inherited,
                        (fuel - 1) as nat,
                        nodes1,
                        nodes1[ni].children@[c] as int,
                    ));
                    lemma_arena_resolves_frame(
                        graph,
                        children@[c] as int,
                        inherited,
                        (fuel - 1) as nat,
                        nodes1,
                        nodes2,
                        nodes1[ni].children@[c] as int,
                        lo,
                    );
                }
            },
            RawSceneNode::Shape { .. } => {},
        }
    }
}

/// Resolves one raw node (and its descendants) into the arena, returning
/// the new node's index. A node is created before its descendants, so a
/// depth-first preorder of the tree matches arena order. A transform node
/// stores its composed name and recurses into its single child with it; a
/// group stores no name and passes the inherited name to every child; a
/// shape stores its model indices. The fuel bounds the walk on malformed
/// (cyclic) graphs; passing the graph length covers every acyclic graph.
pub fn resolve_node_into(
    graph: &Vec<RawSceneNode>,
    idx: usize,
    inherited: &Option<String>,
    fuel: u32,
    out: &mut Vec<VoxelNode>,
) -> (ni: usize)
    requires
        arena_closed(old(out)@),
    ensures
        final(out)@.len() > old(out)@.len(),
        ni == old(out)@.len(),
        forall|j: int| 0 <= j < old(out)@.len() ==> final(out)@[j] == old(out)@[j],
        arena_closed(final(out)@),
        arena_resolves(
            graph@,
            idx as int,
            name_view(*inherited),
            fuel as nat,
            final(out)@,
            ni as int,
        ),
    decreases fuel,
{
    let ni = out.len();
    let placeholder = VoxelNode {
        name: None,
        transform: NodeTransform { tx: 0, ty: 0, tz: 0, rotation: 0 },
        layer_id: 0,
        children: Vec::new(),
        model_ids: Vec::new(),
    };
    out.push(placeholder);
    proof {
        assert(arena_closed(out@));
    }
    if fuel == 0 || idx >= graph.len() {
        proof {
            assert(arena_resolves(
                graph@,
                idx as int,
                name_view(*inherited),
                fuel as nat,
                out@,
                ni as int,
            ));
        }
        return ni;
    }
    match &graph[idx] {
        RawSceneNode::Transform { name, transform, layer_id, child } => {
            let composed = join_names(inherited, name);
            let ghost composed_view = name_view(composed);
            let child_ni = resolve_node_into(graph, *child as usize, &composed, fuel - 1, out);
            let ghost mid = out@;
            let mut children: Vec<usize> = Vec::new();
            children.push(child_ni);
            let node = VoxelNode {
                name: composed,
                transform: *transform,
                layer_id: *layer_id,
                children,
                model_ids: Vec::new(),
            };
            let ghost kids = node.children@;
            out.set(ni, node);
            proof {
                assert forall|j: int, c: int| 0 <= j < out@.len() && 0 <= c
                    < out@[j].children@.len() implies #[trigger] out@[j].children@[c]
                    < out@.len() by {
                    if j == ni as int {
                        assert(out@[j].children@ == kids);
                        assert(kids =~= seq![child_ni]);
                    }
                }
                assert forall|j: int| 0 <= j < old(out)@.len() implies out@[j] == old(out)@[j]
                    by {}
                lemma_arena_resolves_frame(
                    graph@,
                    *child as int,
                    composed_view,
                    (fuel - 1) as nat,
                    mid,
                    out@,
                    child_ni as int,
                    ni as int + 1,
                );
                assert(out@[ni as int].children@ =~= seq![child_ni]);
                assert(arena_resolves(
                    graph@,
                    idx as int,
                    name_view(*inherited),
                    fuel as nat,
                    out@,
                    ni as int,
                ));
            }
            ni
        },
        RawSceneNode::Group { children } => {
            let ghost entry = out@;
            let mut child_indices: Vec<usize> = Vec::new();
            let mut i: usize = 0;
            while i < children.len()
                invariant
                    arena_closed(out@),
                    i <= children@.len(),
                    fuel >= 1,
                    out@.len() >= entry.len(),
                    entry.len() == old(out)@.len() + 1,
                    ni == old(out)@.len(),
                    forall|j: int| 0 <= j < entry.len() ==> out@[j] == entry[j],
                    forall|j: int| 0 <= j < old(out)@.len() ==> out@[j] == old(out)@[j],
                    child_indices@.len() == i,
                    forall|c: int| 0 <= c < child_indices@.len() ==> #[trigger] child_indices@[c]
                        < out@.len(),
                    forall|c: int| 0 <= c < i ==> ((#[trigger] child_indices@[c]) as int) > ni
                        && arena_resolves(
                        graph@,
                        children@[c] as int,
                        name_view(*inherited),
                        (fuel - 1) as nat,
                        out@,
                        child_indices@[c] as int,
                    ),
                decreases children@.len() - i,
            {
                let ghost pre_call = out@;
                let child_ni = resolve_node_into(
                    graph,
                    children[i] as usize,
                    inherited,
                    fuel - 1,
                    out,
                );
                child_indices.push(child_ni);
                proof {
                    assert forall|c: int| 0 <= c < i implies ((
                    #[trigger] child_indices@[c]) as int) > ni && arena_resolves(
                        graph@,
                        children@[c] as int,
                        name_view(*inherited),
                        (fuel - 1) as nat,
                        out@,
                        child_indices@[c] as int,
                    ) by {
                        lemma_arena_resolves_frame(
                            graph@,
                            children@[c] as int,
                            name_view(*inherited),
                            (fuel - 1) as nat,
                            pre_call,
                            out@,
                            child_indices@[c] as int,
                            ni as int + 1,
                        );
                    }
                }
                i += 1;
            }
            let ghost mid = out@;
            let ghost final_indices = child_indices@;
            let node = VoxelNode {
                name: None,
                transform: NodeTransform { tx: 0, ty: 0, tz: 0, rotation: 0 },
                layer_id: 0,
                children: child_indices,
                model_ids: Vec::new(),
            };
            let ghost kids = node.children@;
            out.set(ni, node);
            proof {
                assert forall|j: int, c: int| 0 <= j < out@.len() && 0 <= c
                    < out@[j].children@.len() implies #[trigger] out@[j].children@[c]
                    < out@.len() by {
                    if j == ni as int {
                        assert(out@[j].children@ == kids);
                    }
                }
                assert forall|j: int| 0 <= j < old(out)@.len() implies out@[j] == old(out)@[j]
                    by {}
                assert(out@[ni as int].children@ == final_indices);
                assert forall|c: int| 0 <= c < children@.len() implies ((
                #[trigger] out@[ni as int].children@[c]) as int) > ni && arena_resolves(
                    graph@,
                    children@[c] as int,
                    name_view(*inherited),
                    (fuel - 1) as nat,
                    out@,
                    out@[ni as int].children@[c] as int,
                ) by {
                    assert(out@[ni as int].children@[c] == final_indices[c]);
                    lemma_arena_resolves_frame(
                        graph@,
                        children@[c] as int,
                        name_view(*inherited),
                        (fuel - 1) as nat,
                        mid,
                        out@,
                        final_indices[c] as int,
                        ni as int + 1,
                    );
                }
                assert(arena_resolves(
                    graph@,
                    idx as int,
                    name_view(*inherited),
                    fuel as nat,
                    out@,
                    ni as int,
                ));
            }
            ni
        },
        RawSceneNode::Shape { models } => {
            let mut model_ids: Vec<u32> = Vec::new();
            let mut i: usize = 0;
            while i < models.len()
                invariant
                    i <= models@.len(),
                    model_ids@ == models@.take(i as int),
                decreases models@.len() - i,
            {
                model_ids.push(models[i]);
                proof {
                    assert(model_ids@ =~= models@.take(i + 1));
                }
                i += 1;
            }
            proof {
                assert(models@.take(models@.len() as int) =~= models@);
            }
            let node = VoxelNode {
                name: None,
                transform: NodeTransform { tx: 0, ty: 0, tz: 0, rotation: 0 },
                layer_id: 0,
                children: Vec::new(),
                model_ids,
            };
            out.set(ni, node);
            proof {
                assert forall|j: int, c: int| 0 <= j < out@.len() && 0 <= c
                    < out@[j].children@.len() implies #[trigger] out@[j].children@[c]
                    < out@.len() by {
                    if j == ni as int {
                        assert(out@[j].children@.len() == 0);
                    }
                }
                assert(arena_resolves(
                    graph@,
                    idx as int,
                    name_view(*inherited),
                    fuel as nat,
                    out@,
                    ni as int,
                ));
            }
            ni
        },
    }
}

/// The named sub-scene entries of an arena, in arena (preorder) order.
pub open spec fn subasset_pairs(nodes: Seq<VoxelNode>) -> Seq<(Seq<char>, int)>
    decreases nodes.len(),
{
    if nodes.len() == 0 {
        Seq::empty()
    } else {
        subasset_pairs(nodes.drop_last()) + match nodes.last().name {
            Some(n) => seq![(n@, nodes.len() - 1)],
            None => Seq::empty(),
        }
    }
}

/// Collects every named node of the arena, in traversal (preorder) order,
/// as addressable sub-scene entries.
pub fn collect_subassets(nodes: &Vec<VoxelNode>) -> (r: Vec<NamedSubasset>)
    ensures
        r@.map_values(|e: NamedSubasset| (e.name@, e.node as int)) == subasset_pairs(nodes@),
{
    let mut r: Vec<NamedSubasset> = Vec::new();
    let mut i: usize = 0;
    while i < nodes.len()
        invariant
            i <= nodes@.len(),
            r@.map_values(|e: NamedSubasset| (e.name@, e.node as int)) =~= subasset_pairs(
                nodes@.take(i as int),
            ),
        decreases nodes@.len() - i,
    {
        proof {
            assert(nodes@.take(i + 1).drop_last() =~= nodes@.take(i as int));
            assert(nodes@.take(i + 1).last() == nodes@[i as int]);
        }
        match &nodes[i].name {
            Option::Some(n) => {
                r.push(NamedSubasset { name: n.clone(), node: i });
                proof {
                    assert(r@.map_values(|e: NamedSubasset| (e.name@, e.node as int))
                        =~= subasset_pairs(nodes@.take(i + 1)));
                }
            },
            Option::None => {
                proof {
                    assert(r@.map_values(|e: NamedSubasset| (e.name@, e.node as int))
                        =~= subasset_pairs(nodes@.take(i + 1)));
                }
            },
        }
        i += 1;
    }
    proof {
        assert(nodes@.take(nodes@.len() as int) =~= nodes@);
    }
    r
}

/// The arena index that a name addresses: the entry reached latest in the
/// traversal wins, mirroring the silent overwrite of colliding names.
pub open spec fn subasset_lookup(pairs: Seq<(Seq<char>, int)>, name: Seq<char>) -> Option<int>
    decreases pairs.len(),
{
    if pairs.len() == 0 {
        None
    } else if pairs.last().0 == name {
        Some(pairs.last().1)
    } else {
        subasset_lookup(pairs.drop_last(), name)
    }
}

/// Finds the node a name addresses, latest traversal entry first.
pub fn find_subasset(subassets: &Vec<NamedSubasset>, name: &String) -> (r: Option<usize>)
    ensures
        subasset_lookup(
            subassets@.map_values(|e: NamedSubasset| (e.name@, e.node as int)),
            name@,
        ) == match r {
            Some(ni) => Some(ni as int),
            None => None::<int>,
        },
{
    let ghost pairs = subassets@.map_values(|e: NamedSubasset| (e.name@, e.node as int));
    let mut i: usize = subassets.len();
    proof {
        assert(pairs.take(i as int) =~= pairs);
    }
    while i > 0
        invariant
            i <= subassets@.len(),
            pairs == subassets@.map_values(|e: NamedSubasset| (e.name@, e.node as int)),
            subasset_lookup(pairs, name@) == subasset_lookup(pairs.take(i as int), name@),
        decreases i,
    {
        i -= 1;
        proof {
            assert(pairs.take(i + 1).drop_last() =~= pairs.take(i as int));
            assert(pairs.take(i + 1).last() == pairs[i as int]);
        }
        if subassets[i].name.eq(name) {
            return Some(subassets[i].node);
        }
    }
    proof {
        assert(pairs.take(0) =~= Seq::<(Seq<char>, int)>::empty());
    }
    None
}

/// A transform named `a` above a group above a shape resolves the shape's
/// model to exactly `a`: the name is inherited once, with no duplication.
pub proof fn lemma_single_inheritance(graph: Seq<RawSceneNode>, a: Seq<char>, mid: u32)
    requires
        graph.len() == 3,
        (graph[0] matches RawSceneNode::Transform { name, child, .. } && name_view(name) == Some(a)
            && child == 1u32),
        (graph[1] matches RawSceneNode::Group { children } && children@ =~= seq![2u32]),
        (graph[2] matches RawSceneNode::Shape { models } && models@ =~= seq![mid]),
    ensures
        scene_models_spec(graph, 0, None, 3) =~= seq![(mid, Some(a))],
{
    assert(joined_name(None, Some(a)) == Some(a));
    assert(scene_models_spec(graph, 0, None, 3) == scene_models_spec(graph, 1, Some(a), 2));
    let children = graph[1]->Group_children;
    assert(scene_models_spec(graph, 1, Some(a), 2) == scene_models_children(
        graph,
        children@,
        Some(a),
        1,
    ));
    assert(children@.skip(1) =~= Seq::<u32>::empty());
    assert(scene_models_children(graph, children@, Some(a), 1) == scene_models_spec(
        graph,
        2,
        Some(a),
        1,
    ) + scene_models_children(graph, children@.skip(1), Some(a), 1));
    let models = graph[2]->Shape_models;
    assert(scene_models_spec(graph, 2, Some(a), 1) == models@.map_values(
        |id: u32| (id, Some(a)),
    ));
    assert(models@.map_values(|id: u32| (id, Some(a))) =~= seq![(mid, Some(a))]);
    assert(scene_models_spec(graph, 0, None, 3) =~= seq![(mid, Some(a))]);
}

/// A transform named `a` above a transform named `b` above a shape
/// resolves the shape's model to the joined name `a-b`.
pub proof fn lemma_joined_inheritance(
    graph: Seq<RawSceneNode>,
    a: Seq<char>,
    b: Seq<char>,
    mid: u32,
)
    requires
        graph.len() == 3,
        (graph[0] matches RawSceneNode::Transform { name, child, .. } && name_view(name) == Some(a)
            && child == 1u32),
        (graph[1] matches RawSceneNode::Transform { name, child, .. } && name_view(name) == Some(b)
            && child == 2u32),
        (graph[2] matches RawSceneNode::Shape { models } && models@ =~= seq![mid]),
    ensures
        scene_models_spec(graph, 0, None, 3) =~= seq![(mid, Some(a + seq!['-'] + b))],
{
    assert(scene_models_spec(graph, 0, None, 3) == scene_models_spec(graph, 1, Some(a), 2));
    assert(joined_name(Some(a), Some(b)) == Some(a + seq!['-'] + b));
    assert(scene_models_spec(graph, 1, Some(a), 2) == scene_models_spec(
        graph,
        2,
        Some(a + seq!['-'] + b),
        1,
    ));
    let models = graph[2]->Shape_models;
    assert(scene_models_spec(graph, 2, Some(a + seq!['-'] + b), 1) == models@.map_values(
        |id: u32| (id, Some(a + seq!['-'] + b)),
    ));
    assert(models@.map_values(|id: u32| (id, Some(a + seq!['-'] + b))) =~= seq![
        (mid, Some(a + seq!['-'] + b)),
    ]);
}

} // verus!
