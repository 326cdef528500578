//! Properties of the URL builder, stated and proved over the
//! specification functions of [`crate::config`] and [`crate::encoding`].

use vstd::prelude::*;

use crate::config::{
    content_pairs, extra_pairs, pair_str, plugin_pairs, query_pairs, rendered_pairs,
    spec_content_param_name, spec_url, vault_pairs, Config,
};
use crate::encoding::{lemma_pct_round_trip, pct_decode_str, pct_encode_str};

verus! {

/// With the `new` action and no explicit override, the content parameter
/// name resolves to exactly `content`.
pub proof fn law_default_content_name(c: Config)
    requires
        c.action@ == "new"@,
        c.content_param is None,
    ensures
        spec_content_param_name(c) == Some("content"@),
{
}

/// An explicit `content_param` always wins, whatever the action is.
pub proof fn law_explicit_content_name(c: Config, name: String)
    requires
        c.content_param == Some(name),
    ensures
        spec_content_param_name(c) == Some(name@),
{
}

/// For any action other than `new`, with no explicit override, no content
/// parameter resolves, and the captured text has no influence on the
/// output at all.
pub proof fn law_no_content_for_other_actions(c: Config, t1: Seq<char>, t2: Seq<char>)
    requires
        c.action@ != "new"@,
        c.content_param is None,
    ensures
        spec_content_param_name(c) is None,
        spec_url(c, t1) == spec_url(c, t2),
{
    assert(content_pairs(c, t1) =~= content_pairs(c, t2));
    assert(query_pairs(c, t1) == query_pairs(c, t2));
}

/// The unencoded values behind the emitted pairs, in emission order: the
/// vault name, the captured text, the extra parameter values, the plugin
/// command and the plugin parameter values.
pub open spec fn raw_values(c: Config, text: Seq<char>) -> Seq<Seq<char>> {
    (match c.vault {
        Some(v) => seq![v@],
        None => Seq::empty(),
    }) + (match spec_content_param_name(c) {
        Some(_) => seq![text],
        None => Seq::empty(),
    }) + c.parameters@.map_values(|kv: (String, String)| kv.1@) + (match c.plugin {
        Some(p) => seq![p.command@] + p.params@.map_values(|kv: (String, String)| kv.1@),
        None => Seq::empty(),
    })
}

/// Every emitted value is the percent-encoding of the corresponding raw
/// value, and percent-decoding it yields that raw value back exactly.
pub proof fn law_values_round_trip(c: Config, text: Seq<char>)
    ensures
        query_pairs(c, text).len() == raw_values(c, text).len(),
        forall|i: int| 0 <= i < query_pairs(c, text).len() ==> {
            &&& (#[trigger] query_pairs(c, text)[i]).1 == pct_encode_str(raw_values(c, text)[i])
            &&& pct_decode_str(query_pairs(c, text)[i].1) == raw_values(c, text)[i]
        },
{
    let qp = query_pairs(c, text);
    let rv = raw_values(c, text);
    assert(qp.len() == rv.len());
    assert forall|i: int| 0 <= i < qp.len() implies (#[trigger] qp[i]).1 == pct_encode_str(rv[i])
        && pct_decode_str(qp[i].1) == rv[i] by {
        assert(qp[i].1 == pct_encode_str(rv[i]));
        lemma_pct_round_trip(rv[i]);
    };
}

/// When no vault is configured and nothing else was named `vault` by the
/// caller, no `vault` pair appears in the output.
pub proof fn law_no_vault_when_unset(c: Config, text: Seq<char>)
    requires
        c.vault is None,
        spec_content_param_name(c) != Some("vault"@),
        forall|i: int| 0 <= i < c.parameters@.len() ==> (#[trigger] c.parameters@[i]).0@
            != "vault"@,
        match c.plugin {
            Some(p) => forall|i: int| 0 <= i < p.params@.len() ==> (#[trigger] p.params@[i]).0@
                != "vault"@,
            None => true,
        },
    ensures
        forall|i: int| 0 <= i < query_pairs(c, text).len() ==> (#[trigger] query_pairs(
            c,
            text,
        )[i]).0 != "vault"@,
{
    reveal_strlit("vault");
    reveal_strlit("plugin");
    assert("plugin"@.len() == 6);
    assert("vault"@.len() == 5);
    assert("plugin"@ != "vault"@);
    let qp = query_pairs(c, text);
    assert forall|i: int| 0 <= i < qp.len() implies (#[trigger] qp[i]).0 != "vault"@ by {
        lemma_pair_key_source(c, text, i);
    };
}

/// When no plugin is configured and nothing else was named `plugin` by
/// the caller, no `plugin` pair appears in the output.
pub proof fn law_no_plugin_when_unset(c: Config, text: Seq<char>)
    requires
        c.plugin is None,
        spec_content_param_name(c) != Some("plugin"@),
        forall|i: int| 0 <= i < c.parameters@.len() ==> (#[trigger] c.parameters@[i]).0@
            != "plugin"@,
    ensures
        forall|i: int| 0 <= i < query_pairs(c, text).len() ==> (#[trigger] query_pairs(
            c,
            text,
        )[i]).0 != "plugin"@,
{
    reveal_strlit("vault");
    reveal_strlit("plugin");
    assert("plugin"@.len() == 6);
    assert("vault"@.len() == 5);
    assert("vault"@ != "plugin"@);
    let qp = query_pairs(c, text);
    assert forall|i: int| 0 <= i < qp.len() implies (#[trigger] qp[i]).0 != "plugin"@ by {
        lemma_pair_key_source(c, text, i);
    };
}

/// Every emitted pair's key is the vault selector, the resolved content
/// parameter name, a caller-supplied parameter key, or the plugin
/// selector.
proof fn lemma_pair_key_source(c: Config, text: Seq<char>, i: int)
    requires
        0 <= i < query_pairs(c, text).len(),
    ensures
        ({
            let key = query_pairs(c, text)[i].0;
            ||| (c.vault is Some && key == "vault"@)
            ||| (spec_content_param_name(c) == Some(key))
            ||| (exists|j: int| 0 <= j < c.parameters@.len() && (#[trigger] c.parameters@[j]).0@
                == key)
            ||| (c.plugin is Some && key == "plugin"@)
            ||| (c.plugin is Some && exists|j: int| 0 <= j < c.plugin->0.params@.len() && (
            #[trigger] c.plugin->0.params@[j]).0@ == key)
        }),
{
    let qp = query_pairs(c, text);
    let a = vault_pairs(c);
    let b = content_pairs(c, text);
    let e = extra_pairs(c.parameters@);
    if i < a.len() {
        assert(qp[i] == a[i]);
    } else if i < a.len() + b.len() {
        assert(qp[i] == b[i - a.len()]);
    } else if i < a.len() + b.len() + e.len() {
        let j: int = i - a.len() - b.len();
        assert(qp[i] == e[j]);
        assert((c.parameters@[j]).0@ == qp[i].0);
    } else {
        let p = plugin_pairs(c);
        let j: int = i - a.len() - b.len() - e.len();
        assert(qp[i] == p[j]);
        if j > 0 {
            let pp = c.plugin->0;
            assert(p[j] == extra_pairs(pp.params@)[j - 1]);
            assert((pp.params@[j - 1]).0@ == qp[i].0);
        }
    }
}

/// Reordering the extra parameters never changes the multiset (and so
/// the set) of emitted pairs, nor of the rendered `key=value` strings:
/// only their relative order may differ.
pub proof fn law_order_independence(c1: Config, c2: Config, text: Seq<char>)
    requires
        c1.vault == c2.vault,
        c1.action == c2.action,
        c1.content_param == c2.content_param,
        c1.plugin == c2.plugin,
        c1.parameters@.to_multiset() == c2.parameters@.to_multiset(),
    ensures
        query_pairs(c1, text).to_multiset() == query_pairs(c2, text).to_multiset(),
        query_pairs(c1, text).to_set() == query_pairs(c2, text).to_set(),
        rendered_pairs(c1, text).to_multiset() == rendered_pairs(c2, text).to_multiset(),
        rendered_pairs(c1, text).to_set() == rendered_pairs(c2, text).to_set(),
{
    broadcast use vstd::seq_lib::group_to_multiset_ensures;
    broadcast use vstd::seq_lib::lemma_multiset_commutative;

    let qp1 = query_pairs(c1, text);
    let qp2 = query_pairs(c2, text);
    let a = vault_pairs(c1);
    let b = content_pairs(c1, text);
    let e1 = extra_pairs(c1.parameters@);
    let e2 = extra_pairs(c2.parameters@);
    let pg = plugin_pairs(c1);
    assert(vault_pairs(c2) == a);
    assert(spec_content_param_name(c2) == spec_content_param_name(c1));
    assert(content_pairs(c2, text) == b);
    assert(plugin_pairs(c2) == pg);
    lemma_map_values_permutation(
        c1.parameters@,
        c2.parameters@,
        |kv: (String, String)| (kv.0@, pct_encode_str(kv.1@)),
    );
    assert(e1.to_multiset() == e2.to_multiset());
    assert(qp1.to_multiset() =~= a.to_multiset().add(b.to_multiset()).add(e1.to_multiset()).add(
        pg.to_multiset(),
    ));
    assert(qp2.to_multiset() =~= a.to_multiset().add(b.to_multiset()).add(e2.to_multiset()).add(
        pg.to_multiset(),
    ));
    assert(qp1.to_multiset() == qp2.to_multiset());

    assert forall|x: (Seq<char>, Seq<char>)| qp1.contains(x) <==> qp2.contains(x) by {
        assert(qp1.contains(x) <==> qp1.to_multiset().count(x) > 0);
        assert(qp2.contains(x) <==> qp2.to_multiset().count(x) > 0);
    };
    assert(qp1.to_set() =~= qp2.to_set());

    lemma_map_values_permutation(qp1, qp2, |p: (Seq<char>, Seq<char>)| pair_str(p));
    let rp1 = rendered_pairs(c1, text);
    let rp2 = rendered_pairs(c2, text);
    assert(rp1.to_multiset() == rp2.to_multiset());
    assert forall|x: Seq<char>| rp1.contains(x) <==> rp2.contains(x) by {
        assert(rp1.contains(x) <==> rp1.to_multiset().count(x) > 0);
        assert(rp2.contains(x) <==> rp2.to_multiset().count(x) > 0);
    };
    assert(rp1.to_set() =~= rp2.to_set());
}

/// Mapping a function over two sequences that are permutations of each
/// other yields permutations of each other again.
proof fn lemma_map_values_permutation<A, B>(s1: Seq<A>, s2: Seq<A>, f: spec_fn(A) -> B)
    requires
        s1.to_multiset() == s2.to_multiset(),
    ensures
        s1.map_values(f).to_multiset() == s2.map_values(f).to_multiset(),
    decreases s1.len(),
{
    broadcast use vstd::seq_lib::group_to_multiset_ensures;
    broadcast use vstd::multiset::group_multiset_axioms;

    if s1.len() == 0 {
        assert(s1.to_multiset().len() == 0);
        assert(s2.len() == 0);
        assert(s1 =~= s2);
    } else {
        let n1: int = s1.len() - 1;
        let x = s1.last();
        assert(s1.contains(x));
        assert(s2.to_multiset().count(x) > 0);
        assert(s2.contains(x));
        let j: int = choose|j: int| 0 <= j < s2.len() && s2[j] == x;
        let r1 = s1.remove(n1);
        let r2 = s2.remove(j);
        assert(r1.to_multiset() =~= s1.to_multiset().remove(x));
        assert(r2.to_multiset() =~= s2.to_multiset().remove(x));
        lemma_map_values_permutation(r1, r2, f);
        let m1 = s1.map_values(f);
        let m2 = s2.map_values(f);
        assert(r1.map_values(f) =~= m1.remove(n1));
        assert(r2.map_values(f) =~= m2.remove(j));
        assert(m1[n1] == f(x));
        assert(m2[j] == f(x));
        assert(m1.remove(n1).to_multiset() =~= m1.to_multiset().remove(f(x)));
        assert(m2.remove(j).to_multiset() =~= m2.to_multiset().remove(f(x)));
        assert(m1.contains(f(x)));
        assert(m1.to_multiset().count(f(x)) > 0);
        assert(m2.contains(f(x)));
        assert(m2.to_multiset().count(f(x)) > 0);
        assert(m1.to_multiset().remove(f(x)) == m2.to_multiset().remove(f(x)));
        assert forall|y: B| #[trigger] m1.to_multiset().count(y) == m2.to_multiset().count(y) by {
            if y == f(x) {
                assert(m1.to_multiset().count(y) == m1.to_multiset().remove(f(x)).count(y) + 1);
                assert(m2.to_multiset().count(y) == m2.to_multiset().remove(f(x)).count(y) + 1);
            } else {
                assert(m1.to_multiset().count(y) == m1.to_multiset().remove(f(x)).count(y));
                assert(m2.to_multiset().count(y) == m2.to_multiset().remove(f(x)).count(y));
            }
        };
        assert(m1.to_multiset() =~= m2.to_multiset());
    }
}

} // verus!
