//! Named collision layers over the simulation's 32-bit interaction groups.
//! Four built-in layers cover the engine's body kinds; a world's physics
//! config may declare up to 28 more and disable pairs symmetrically. The table
//! resolves names to bits once at init; everything downstream works in plain
//! bit masks.

use vstd::prelude::*;
use crate::text::str_eq;

verus! {

/// The layer of static world geometry.
pub const LAYER_WORLD: &'static str = "world";

/// The layer of props.
pub const LAYER_PROP: &'static str = "prop";

/// The layer of character capsules.
pub const LAYER_CHARACTER: &'static str = "character";

/// The layer of trigger volumes.
pub const LAYER_TRIGGER: &'static str = "trigger";

/// The layers a world declares and the pairs it keeps from colliding.
#[derive(Debug)]
pub struct PhysicsConfig {
    /// Extra layer names, after the built-in ones.
    pub layers: Vec<String>,
    /// Pairs of layer names that never collide.
    pub no_collide: Vec<[String; 2]>,
}

/// A collider's interaction groups: the layers it belongs to and the layers
/// it collides with, one bit per layer.
#[derive(Clone, Copy, Debug, PartialEq, Eq, Structural)]
pub struct LayerMask {
    pub memberships: u32,
    pub filter: u32,
}

/// Bit `i` of `x` is set.
pub open spec fn bit(x: u32, i: u32) -> bool {
    (x >> i) & 1u32 == 1u32
}

/// The built-in layer names, in bit order.
pub open spec fn builtin_layers() -> Seq<Seq<char>> {
    seq!["world"@, "prop"@, "character"@, "trigger"@]
}

/// `names` after declaring `layer`: appended unless the table is full or the
/// name is already there.
pub open spec fn add_layer(names: Seq<Seq<char>>, layer: Seq<char>) -> Seq<Seq<char>> {
    if names.len() >= 32 || names.contains(layer) {
        names
    } else {
        names.push(layer)
    }
}

/// The layer names after declaring `layers` in order.
pub open spec fn declare_layers(names: Seq<Seq<char>>, layers: Seq<Seq<char>>) -> Seq<Seq<char>>
    decreases layers.len(),
{
    if layers.len() == 0 {
        names
    } else {
        add_layer(declare_layers(names, layers.drop_last()), layers.last())
    }
}

/// The bit of the first layer named `name`, if any.
pub open spec fn layer_bit(names: Seq<Seq<char>>, name: Seq<char>) -> Option<int>
    decreases names.len(),
{
    if names.len() == 0 {
        None
    } else {
        match layer_bit(names.drop_last(), name) {
            Some(k) => Some(k),
            None => if names.last() == name {
                Some(names.len() - 1)
            } else {
                None
            },
        }
    }
}

/// A no-collide pair names layers `a` and `b`, in either order.
pub open spec fn blocks(names: Seq<Seq<char>>, pair: (Seq<char>, Seq<char>), a: int, b: int) -> bool {
    match (layer_bit(names, pair.0), layer_bit(names, pair.1)) {
        (Some(x), Some(y)) => (x == a && y == b) || (x == b && y == a),
        _ => false,
    }
}

/// Layers `a` and `b` collide: both exist and no pair among the first `m`
/// keeps them apart.
pub open spec fn collides(
    names: Seq<Seq<char>>,
    pairs: Seq<(Seq<char>, Seq<char>)>,
    m: int,
    a: int,
    b: int,
) -> bool {
    &&& 0 <= a < names.len()
    &&& 0 <= b < names.len()
    &&& forall|j: int| 0 <= j < m ==> !#[trigger] blocks(names, pairs[j], a, b)
}

/// The no-collide pairs' names.
pub open spec fn pair_names(pairs: Seq<[String; 2]>) -> Seq<(Seq<char>, Seq<char>)> {
    pairs.map_values(|p: [String; 2]| (p[0]@, p[1]@))
}

/// The layer names a config yields.
pub open spec fn config_names(config: PhysicsConfig) -> Seq<Seq<char>> {
    declare_layers(builtin_layers(), config.layers@.map_values(|s: String| s@))
}

/// Layer-name resolution for one world: bit assignment plus the symmetric
/// collide matrix compiled from the config's no-collide pairs.
#[derive(Debug)]
pub struct LayerTable {
    names: Vec<String>,
    collide: Vec<u32>,
}

proof fn lemma_bit_clear(x: u32, b: u32, i: u32)
    requires
        b < 32,
        i < 32,
    ensures
        bit(x & !(1u32 << b), i) == (bit(x, i) && i != b),
{
    assert(((x & !(1u32 << b)) >> i) & 1u32 == 1u32 <==> (((x >> i) & 1u32 == 1u32) && i != b))
        by (bit_vector)
        requires
            b < 32,
            i < 32,
    ;
}

proof fn lemma_bit_single(b: u32, i: u32)
    requires
        b < 32,
        i < 32,
    ensures
        bit(1u32 << b, i) == (i == b),
{
    assert((((1u32 << b) >> i) & 1u32 == 1u32) <==> (i == b)) by (bit_vector)
        requires
            b < 32,
            i < 32,
    ;
}

proof fn lemma_bit_or(x: u32, y: u32, i: u32)
    requires
        i < 32,
    ensures
        bit(x | y, i) == (bit(x, i) || bit(y, i)),
{
    assert((((x | y) >> i) & 1u32 == 1u32) <==> (((x >> i) & 1u32 == 1u32) || ((y >> i) & 1u32
        == 1u32))) by (bit_vector)
        requires
            i < 32,
    ;
}

proof fn lemma_bit_low(n: u32, i: u32)
    requires
        n < 32,
        i < 32,
    ensures
        bit(((1u32 << n) - 1) as u32, i) == (i < n),
{
    assert(((((1u32 << n) - 1) as u32 >> i) & 1u32 == 1u32) <==> (i < n)) by (bit_vector)
        requires
            n < 32,
            i < 32,
    ;
}

proof fn lemma_bit_all(i: u32)
    requires
        i < 32,
    ensures
        bit(u32::MAX, i),
{
    assert(((0xffff_ffffu32 >> i) & 1u32 == 1u32)) by (bit_vector)
        requires
            i < 32,
    ;
}

proof fn lemma_bit_none(i: u32)
    requires
        i < 32,
    ensures
        !bit(0u32, i),
{
    assert(!((0u32 >> i) & 1u32 == 1u32)) by (bit_vector);
}

proof fn lemma_layer_bit_found(names: Seq<Seq<char>>, name: Seq<char>)
    ensures
        layer_bit(names, name) is Some <==> names.contains(name),
        layer_bit(names, name) matches Some(k) ==> 0 <= k < names.len() && names[k] == name,
    decreases names.len(),
{
    if names.len() > 0 {
        lemma_layer_bit_found(names.drop_last(), name);
        if names.drop_last().contains(name) {
            let k = choose|k: int| 0 <= k < names.drop_last().len() && names.drop_last()[k] == name;
            assert(names[k] == name);
        }
        if names.contains(name) && !names.drop_last().contains(name) {
            let k = choose|k: int| 0 <= k < names.len() && names[k] == name;
            if k < names.len() - 1 {
                assert(names.drop_last()[k] == name);
            }
        }
    }
}

proof fn lemma_layer_bit_push(names: Seq<Seq<char>>, extra: Seq<char>, name: Seq<char>)
    requires
        layer_bit(names, name) is Some,
    ensures
        layer_bit(names.push(extra), name) == layer_bit(names, name),
{
    assert(names.push(extra).drop_last() =~= names);
}

/// The first index of `name` in `names`, as `layer_bit` gives it.
fn find_layer(names: &Vec<String>, name: &str) -> (r: Option<usize>)
    ensures
        match r {
            Some(k) => layer_bit(names@.map_values(|s: String| s@), name@) == Some(k as int),
            None => layer_bit(names@.map_values(|s: String| s@), name@) is None,
        },
{
    let ghost all = names@.map_values(|s: String| s@);
    let mut k: usize = 0;
    while k < names.len()
        invariant
            k <= names@.len(),
            all == names@.map_values(|s: String| s@),
            layer_bit(all.take(k as int), name@) is None,
        decreases names@.len() - k,
    {
        proof {
            assert(all.take(k + 1).drop_last() =~= all.take(k as int));
        }
        if str_eq(names[k].as_str(), name) {
            proof {
                assert(layer_bit(all.take(k + 1), name@) == Some(k as int));
                lemma_layer_bit_extend(all, k + 1, name@);
            }
            return Some(k);
        }
        k += 1;
    }
    proof {
        assert(all.take(k as int) =~= all);
    }
    None
}

proof fn lemma_layer_bit_extend(names: Seq<Seq<char>>, m: int, name: Seq<char>)
    requires
        0 <= m <= names.len(),
        layer_bit(names.take(m), name) is Some,
    ensures
        layer_bit(names, name) == layer_bit(names.take(m), name),
    decreases names.len() - m,
{
    if m < names.len() {
        assert(names.take(m + 1).drop_last() =~= names.take(m));
        lemma_layer_bit_extend(names, m + 1, name);
    } else {
        assert(names.take(m) =~= names);
    }
}

impl LayerTable {
    /// The layer names, in bit order.
    pub closed spec fn layer_names(&self) -> Seq<Seq<char>> {
        self.names@.map_values(|s: String| s@)
    }

    /// The collide row of layer `a`: one bit per layer it collides with.
    pub closed spec fn row(&self, a: int) -> u32 {
        self.collide@[a]
    }

    /// Every layer has a row, the built-in layers come first, and there are at
    /// most 32 layers.
    #[verifier::type_invariant]
    closed spec fn well_formed(&self) -> bool {
        &&& self.collide@.len() == self.names@.len()
        &&& 4 <= self.names@.len() <= 32
    }

    /// Compile a config: the built-in layers, then each declared layer not yet
    /// present while fewer than 32 exist, and a collide matrix with both
    /// directions of every no-collide pair between known layers cleared.
    pub fn new(config: &PhysicsConfig) -> (r: Self)
        ensures
            r.layer_names() == config_names(*config),
            forall|a: int, i: int|
                0 <= a < r.layer_names().len() && 0 <= i < 32 ==> #[trigger] bit(r.row(a), i as u32)
                    == collides(
                    r.layer_names(),
                    pair_names(config.no_collide@),
                    config.no_collide@.len() as int,
                    a,
                    i,
                ),
    {
        let mut names: Vec<String> = Vec::new();
        names.push(LAYER_WORLD.to_owned());
        names.push(LAYER_PROP.to_owned());
        names.push(LAYER_CHARACTER.to_owned());
        names.push(LAYER_TRIGGER.to_owned());
        let ghost declared = config.layers@.map_values(|s: String| s@);
        proof {
            assert(names@.map_values(|s: String| s@) =~= builtin_layers());
        }
        let mut k: usize = 0;
        while k < config.layers.len()
            invariant
                k <= config.layers@.len(),
                declared == config.layers@.map_values(|s: String| s@),
                names@.map_values(|s: String| s@) == declare_layers(
                    builtin_layers(),
                    declared.take(k as int),
                ),
                4 <= names@.len() <= 32,
            decreases config.layers@.len() - k,
        {
            let layer = &config.layers[k];
            proof {
                assert(declared.take(k + 1).drop_last() =~= declared.take(k as int));
                lemma_layer_bit_found(names@.map_values(|s: String| s@), layer@);
            }
            if names.len() < 32 {
                if find_layer(&names, layer.as_str()).is_none() {
                    let ghost before = names@;
                    names.push(layer.clone());
                    proof {
                        assert(names@.map_values(|s: String| s@) =~= before.map_values(
                            |s: String| s@,
                        ).push(layer@));
                    }
                }
            }
            k += 1;
        }
        proof {
            assert(declared.take(config.layers@.len() as int) =~= declared);
        }
        let ghost all_names = names@.map_values(|s: String| s@);
        let n = names.len();
        let all: u32 = if n == 32 {
            u32::MAX
        } else {
            let shift = n as u32;
            assert(1u32 << shift >= 1u32) by (bit_vector)
                requires
                    shift < 32,
            ;
            (1u32 << shift) - 1
        };
        let ghost pairs = pair_names(config.no_collide@);
        let mut collide: Vec<u32> = Vec::new();
        let mut r: usize = 0;
        while r < n
            invariant
                r <= n,
                4 <= n <= 32,
                collide@.len() == r,
                forall|t: int| 0 <= t < r ==> collide@[t] == all,
            decreases n - r,
        {
            collide.push(all);
            r += 1;
        }
        proof {
            assert forall|a: int, i: int|
                0 <= a < n && 0 <= i < 32 implies #[trigger] bit(collide@[a], i as u32) == collides(
                all_names,
                pairs,
                0,
                a,
                i,
            ) by {
                if n == 32 {
                    lemma_bit_all(i as u32);
                } else {
                    lemma_bit_low(n as u32, i as u32);
                }
            }
        }
        let mut j: usize = 0;
        while j < config.no_collide.len()
            invariant
                j <= config.no_collide@.len(),
                all_names == names@.map_values(|s: String| s@),
                pairs == pair_names(config.no_collide@),
                n == names@.len(),
                4 <= n <= 32,
                collide@.len() == n,
                forall|a: int, i: int|
                    0 <= a < n && 0 <= i < 32 ==> #[trigger] bit(collide@[a], i as u32) == collides(
                        all_names,
                        pairs,
                        j as int,
                        a,
                        i,
                    ),
            decreases config.no_collide@.len() - j,
        {
            let pair = &config.no_collide[j];
            let ghost before = collide@;
            match (find_layer(&names, pair[0].as_str()), find_layer(&names, pair[1].as_str())) {
                (Some(a), Some(b)) => {
                    proof {
                        lemma_layer_bit_found(all_names, pair[0]@);
                        lemma_layer_bit_found(all_names, pair[1]@);
                    }
                    let row_a = collide[a] & !(1u32 << b as u32);
                    collide.set(a, row_a);
                    let row_b = collide[b] & !(1u32 << a as u32);
                    collide.set(b, row_b);
                    proof {
                        assert forall|x: int, i: int|
                            0 <= x < n && 0 <= i < 32 implies #[trigger] bit(collide@[x], i as u32)
                                == collides(all_names, pairs, j + 1, x, i) by {
                            assert(pairs[j as int] == (pair[0]@, pair[1]@));
                            if x == a {
                                lemma_bit_clear(before[x], b as u32, i as u32);
                            }
                            if x == b {
                                if a == b {
                                    lemma_bit_clear(before[x], b as u32, i as u32);
                                    lemma_bit_clear(row_a, a as u32, i as u32);
                                } else {
                                    lemma_bit_clear(before[x], a as u32, i as u32);
                                }
                            }
                            assert(bit(before[x], i as u32) == collides(all_names, pairs, j as int, x, i));
                            if collides(all_names, pairs, j as int, x, i) && !blocks(
                                all_names,
                                pairs[j as int],
                                x,
                                i,
                            ) {
                                assert forall|t: int| 0 <= t < j + 1 implies !#[trigger] blocks(
                                    all_names,
                                    pairs[t],
                                    x,
                                    i,
                                ) by {}
                            }
                        }
                    }
                },
                _ => {
                    proof {
                        assert forall|x: int, i: int|
                            0 <= x < n && 0 <= i < 32 implies #[trigger] bit(collide@[x], i as u32)
                                == collides(all_names, pairs, j + 1, x, i) by {
                            assert(pairs[j as int] == (pair[0]@, pair[1]@));
                            assert(!blocks(all_names, pairs[j as int], x, i));
                            assert(bit(before[x], i as u32) == collides(all_names, pairs, j as int, x, i));
                            if collides(all_names, pairs, j as int, x, i) {
                                assert forall|t: int| 0 <= t < j + 1 implies !#[trigger] blocks(
                                    all_names,
                                    pairs[t],
                                    x,
                                    i,
                                ) by {}
                            }
                        }
                    }
                },
            }
            j += 1;
        }
        LayerTable { names, collide }
    }

    /// The bit a layer name resolves to; an unknown name falls back to the
    /// world layer's.
    pub open spec fn resolved_bit(&self, layer: Seq<char>) -> int {
        match layer_bit(self.layer_names(), layer) {
            Some(k) => k,
            None => 0,
        }
    }

    /// The mask a collider on `layer` carries: its own bit plus the filter row
    /// the collide matrix left it. Unknown names fall back to the world layer.
    pub fn mask(&self, layer: &str) -> (r: LayerMask)
        ensures
            0 <= self.resolved_bit(layer@) < 32,
            forall|i: int| 0 <= i < 32 ==> #[trigger] bit(r.memberships, i as u32) == (i == self.resolved_bit(layer@)),
            r.filter == self.row(self.resolved_bit(layer@)),
    {
        proof {
            use_type_invariant(self);
            lemma_layer_bit_found(self.layer_names(), layer@);
        }
        let b = match find_layer(&self.names, layer) {
            Some(k) => k,
            None => 0,
        };
        let memberships = 1u32 << b as u32;
        proof {
            assert forall|i: int| 0 <= i < 32 implies #[trigger] bit(memberships, i as u32) == (i == b) by {
                lemma_bit_single(b as u32, i as u32);
            }
        }
        LayerMask { memberships, filter: self.collide[b] }
    }

    /// A query mask: cast as a member of `layer`, hitting only the layers
    /// named among `targets` (unknown names add nothing).
    pub fn query_mask(&self, layer: &str, targets: &[&str]) -> (r: LayerMask)
        ensures
            0 <= self.resolved_bit(layer@) < 32,
            forall|i: int| 0 <= i < 32 ==> #[trigger] bit(r.memberships, i as u32) == (i == self.resolved_bit(layer@)),
            forall|i: int|
                0 <= i < 32 ==> (#[trigger] bit(r.filter, i as u32) <==> exists|t: int|
                    0 <= t < targets@.len() && #[trigger] layer_bit(self.layer_names(), targets@[t]@) == Some(i)),
    {
        let mut filter: u32 = 0;
        let mut k: usize = 0;
        proof {
            use_type_invariant(self);
            assert forall|i: int| 0 <= i < 32 implies !#[trigger] bit(filter, i as u32) by {
                lemma_bit_none(i as u32);
            }
        }
        while k < targets.len()
            invariant
                k <= targets@.len(),
                self.names@.len() <= 32,
                forall|i: int|
                    0 <= i < 32 ==> (#[trigger] bit(filter, i as u32) <==> exists|t: int|
                        0 <= t < k && #[trigger] layer_bit(self.layer_names(), targets@[t]@) == Some(i)),
            decreases targets@.len() - k,
        {
            let ghost before = filter;
            proof {
                lemma_layer_bit_found(self.layer_names(), targets@[k as int]@);
            }
            match find_layer(&self.names, targets[k]) {
                Some(b) => {
                    filter = filter | (1u32 << b as u32);
                    proof {
                        assert forall|i: int| 0 <= i < 32 implies (#[trigger] bit(filter, i as u32) <==> exists|t: int|
                            0 <= t < k + 1 && #[trigger] layer_bit(self.layer_names(), targets@[t]@) == Some(i)) by {
                            lemma_bit_or(before, 1u32 << b as u32, i as u32);
                            lemma_bit_single(b as u32, i as u32);
                            if i == b {
                                assert(layer_bit(self.layer_names(), targets@[k as int]@) == Some(i));
                            }
                            if exists|t: int| 0 <= t < k + 1 && #[trigger] layer_bit(self.layer_names(), targets@[t]@) == Some(i) {
                                let t = choose|t: int| 0 <= t < k + 1 && #[trigger] layer_bit(self.layer_names(), targets@[t]@) == Some(i);
                                if t < k {
                                    assert(bit(before, i as u32));
                                }
                            }
                        }
                    }
                },
                None => {
                    proof {
                        assert forall|i: int| 0 <= i < 32 implies (#[trigger] bit(filter, i as u32) <==> exists|t: int|
                            0 <= t < k + 1 && #[trigger] layer_bit(self.layer_names(), targets@[t]@) == Some(i)) by {
                            if exists|t: int| 0 <= t < k + 1 && #[trigger] layer_bit(self.layer_names(), targets@[t]@) == Some(i) {
                                let t = choose|t: int| 0 <= t < k + 1 && #[trigger] layer_bit(self.layer_names(), targets@[t]@) == Some(i);
                                if t < k {
                                    assert(bit(before, i as u32));
                                }
                            }
                        }
                    }
                },
            }
            k += 1;
        }
        let own = self.mask(layer);
        LayerMask { memberships: own.memberships, filter }
    }
}

impl Default for LayerTable {
    /// The table of a world that declares no layers and no pairs.
    fn default() -> (r: Self)
        ensures
            r.layer_names() == builtin_layers(),
            forall|a: int, i: int|
                0 <= a < 4 && 0 <= i < 32 ==> #[trigger] bit(r.row(a), i as u32) == (i < 4),
    {
        let config = PhysicsConfig { layers: Vec::new(), no_collide: Vec::new() };
        let r = LayerTable::new(&config);
        proof {
            assert(config.layers@.map_values(|s: String| s@) =~= Seq::<Seq<char>>::empty());
            assert forall|a: int, i: int|
                0 <= a < 4 && 0 <= i < 32 implies #[trigger] bit(r.row(a), i as u32) == (i < 4) by {
                assert(bit(r.row(a), i as u32) == collides(
                    r.layer_names(),
                    pair_names(config.no_collide@),
                    config.no_collide@.len() as int,
                    a,
                    i,
                ));
            }
        }
        r
    }
}

/// The collide matrix is symmetric: layer `a` collides with `b` exactly when
/// `b` collides with `a`.
pub proof fn lemma_collides_symmetric(
    names: Seq<Seq<char>>,
    pairs: Seq<(Seq<char>, Seq<char>)>,
    m: int,
    a: int,
    b: int,
)
    ensures
        collides(names, pairs, m, a, b) == collides(names, pairs, m, b, a),
{
    if collides(names, pairs, m, a, b) {
        assert forall|j: int| 0 <= j < m implies !#[trigger] blocks(names, pairs[j], b, a) by {
            assert(!blocks(names, pairs[j], a, b));
        }
    }
    if collides(names, pairs, m, b, a) {
        assert forall|j: int| 0 <= j < m implies !#[trigger] blocks(names, pairs[j], a, b) by {
            assert(!blocks(names, pairs[j], b, a));
        }
    }
}

/// No name appears twice.
pub open spec fn distinct_names(names: Seq<Seq<char>>) -> bool {
    forall|i: int, j: int| 0 <= i < j < names.len() ==> names[i] != names[j]
}

proof fn lemma_declared_shape(layers: Seq<Seq<char>>)
    ensures
        4 <= declare_layers(builtin_layers(), layers).len() <= 32,
        declare_layers(builtin_layers(), layers).take(4) == builtin_layers(),
        distinct_names(declare_layers(builtin_layers(), layers)),
    decreases layers.len(),
{
    let names = declare_layers(builtin_layers(), layers);
    if layers.len() == 0 {
        reveal_strlit("world");
        reveal_strlit("prop");
        reveal_strlit("character");
        reveal_strlit("trigger");
        assert(builtin_layers().take(4) =~= builtin_layers());
        assert("world"@.len() == 5 && "prop"@.len() == 4);
        assert("character"@.len() == 9 && "trigger"@.len() == 7);
    } else {
        let before = declare_layers(builtin_layers(), layers.drop_last());
        lemma_declared_shape(layers.drop_last());
        if !(before.len() >= 32 || before.contains(layers.last())) {
            assert(names == before.push(layers.last()));
            assert(names.take(4) =~= before.take(4));
            assert forall|i: int, j: int| 0 <= i < j < names.len() implies names[i] != names[j] by {
                if j == before.len() {
                    assert(names[i] == before[i]);
                    if names[i] == names[j] {
                        assert(before.contains(layers.last()));
                    }
                } else {
                    assert(names[i] == before[i] && names[j] == before[j]);
                }
            }
        }
    }
}

proof fn lemma_layer_bit_distinct(names: Seq<Seq<char>>, name: Seq<char>, k: int)
    requires
        distinct_names(names),
        0 <= k < names.len(),
        names[k] == name,
    ensures
        layer_bit(names, name) == Some(k),
{
    lemma_layer_bit_found(names, name);
    assert(names.contains(name));
    let found = layer_bit(names, name)->0;
    assert(names[found] == name);
    if found != k {
        if found < k {
            assert(names[found] != names[k]);
        } else {
            assert(names[k] != names[found]);
        }
    }
}

/// What a layer table built from a config holds: the built-in layers first,
/// no name twice and at most 32 names; and for two known layers, each one's
/// filter admits the other exactly when the other's admits it, and both
/// refuse it exactly when the config lists the pair, in either order, as
/// never colliding.
pub proof fn lemma_layer_table_laws(t: LayerTable, config: PhysicsConfig, a: Seq<char>, b: Seq<char>)
    requires
        t.layer_names() == config_names(config),
        forall|x: int, i: int|
            0 <= x < t.layer_names().len() && 0 <= i < 32 ==> #[trigger] bit(t.row(x), i as u32)
                == collides(
                t.layer_names(),
                pair_names(config.no_collide@),
                config.no_collide@.len() as int,
                x,
                i,
            ),
        t.layer_names().contains(a),
        t.layer_names().contains(b),
    ensures
        4 <= t.layer_names().len() <= 32,
        t.layer_names().take(4) == builtin_layers(),
        distinct_names(t.layer_names()),
        bit(t.row(t.resolved_bit(a)), t.resolved_bit(b) as u32) == bit(
            t.row(t.resolved_bit(b)),
            t.resolved_bit(a) as u32,
        ),
        !bit(t.row(t.resolved_bit(a)), t.resolved_bit(b) as u32) <==> exists|j: int|
            0 <= j < config.no_collide@.len() && ((#[trigger] pair_names(config.no_collide@)[j] == (a, b))
                || pair_names(config.no_collide@)[j] == (b, a)),
{
    let names = t.layer_names();
    let pairs = pair_names(config.no_collide@);
    let m = config.no_collide@.len() as int;
    lemma_declared_shape(config.layers@.map_values(|s: String| s@));
    lemma_layer_bit_found(names, a);
    lemma_layer_bit_found(names, b);
    let x = t.resolved_bit(a);
    let y = t.resolved_bit(b);
    assert(0 <= x < names.len() && names[x] == a);
    assert(0 <= y < names.len() && names[y] == b);
    assert(bit(t.row(x), y as u32) == collides(names, pairs, m, x, y));
    assert(bit(t.row(y), x as u32) == collides(names, pairs, m, y, x));
    lemma_collides_symmetric(names, pairs, m, x, y);
    assert forall|j: int| 0 <= j < m implies #[trigger] blocks(names, pairs[j], x, y) == (pairs[j] == (a, b)
        || pairs[j] == (b, a)) by {
        let p = pairs[j];
        lemma_layer_bit_found(names, p.0);
        lemma_layer_bit_found(names, p.1);
        if p == (a, b) || p == (b, a) {
            lemma_layer_bit_distinct(names, a, x);
            lemma_layer_bit_distinct(names, b, y);
        }
        if blocks(names, p, x, y) {
            let u = layer_bit(names, p.0)->0;
            let v = layer_bit(names, p.1)->0;
            assert(names[u] == p.0 && names[v] == p.1);
        }
    }
    if !collides(names, pairs, m, x, y) {
        let j = choose|j: int| 0 <= j < m && #[trigger] blocks(names, pairs[j], x, y);
        assert(pairs[j] == (a, b) || pairs[j] == (b, a));
    }
    if exists|j: int| 0 <= j < m && ((#[trigger] pairs[j] == (a, b)) || pairs[j] == (b, a)) {
        let j = choose|j: int| 0 <= j < m && ((#[trigger] pairs[j] == (a, b)) || pairs[j] == (b, a));
        assert(blocks(names, pairs[j], x, y));
    }
}

} // verus!
