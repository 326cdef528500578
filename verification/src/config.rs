//! The configuration record and the URL builder.
//!
//! [`spec_url`] is the mathematical description of the built URL: a fixed
//! `obsidian://` prefix, the action verbatim, and, when any query
//! parameters are emitted, `?` followed by the `key=value` pairs joined
//! with `&`. [`query_pairs`] lists those pairs: the vault selector, the
//! captured text under the resolved content parameter name, the extra
//! parameters, and the plugin section, in that order, every value
//! percent-encoded.

use vstd::prelude::*;
use vstd::string::StringExecFns;

use crate::encoding::{pct_encode_str, percent_encode};

verus! {

/// Parameters for a plugin-targeted capture.
#[derive(Debug, Clone)]
pub struct PluginConfig {
    /// Plugin command or endpoint.
    pub command: String,
    /// Additional plugin parameters, emitted in order.
    pub params: Vec<(String, String)>,
}

/// Configuration for building a capture URL.
#[derive(Debug, Clone)]
pub struct Config {
    /// Vault name; no vault selector is emitted when absent.
    pub vault: Option<String>,
    /// Base action (`new`, `open`, `search`, ...).
    pub action: String,
    /// Explicit name for the query parameter that carries the captured
    /// text; overrides the action-based default.
    pub content_param: Option<String>,
    /// Additional URL parameters, emitted in order.
    pub parameters: Vec<(String, String)>,
    /// Plugin section; nothing plugin-related is emitted when absent.
    pub plugin: Option<PluginConfig>,
}

/// The name of the query parameter that carries the captured text: the
/// explicit override when configured, otherwise `content` for the `new`
/// action and nothing for any other action.
pub open spec fn spec_content_param_name(c: Config) -> Option<Seq<char>> {
    match c.content_param {
        Some(p) => Some(p@),
        None => if c.action@ == "new"@ {
            Some("content"@)
        } else {
            None
        },
    }
}

/// The vault pair, when a vault is configured.
pub open spec fn vault_pairs(c: Config) -> Seq<(Seq<char>, Seq<char>)> {
    match c.vault {
        Some(v) => seq![("vault"@, pct_encode_str(v@))],
        None => Seq::empty(),
    }
}

/// The content pair, when a content parameter name resolves.
pub open spec fn content_pairs(c: Config, text: Seq<char>) -> Seq<(Seq<char>, Seq<char>)> {
    match spec_content_param_name(c) {
        Some(name) => seq![(name, pct_encode_str(text))],
        None => Seq::empty(),
    }
}

/// Key-value pairs of a free-form parameter list: keys verbatim, values
/// percent-encoded.
pub open spec fn extra_pairs(ps: Seq<(String, String)>) -> Seq<(Seq<char>, Seq<char>)> {
    ps.map_values(|kv: (String, String)| (kv.0@, pct_encode_str(kv.1@)))
}

/// The plugin selector pair followed by the plugin's own parameters, when
/// a plugin is configured.
pub open spec fn plugin_pairs(c: Config) -> Seq<(Seq<char>, Seq<char>)> {
    match c.plugin {
        Some(p) => seq![("plugin"@, pct_encode_str(p.command@))] + extra_pairs(p.params@),
        None => Seq::empty(),
    }
}

/// Every emitted query pair, in order: vault, content, extra parameters,
/// plugin.
pub open spec fn query_pairs(c: Config, text: Seq<char>) -> Seq<(Seq<char>, Seq<char>)> {
    vault_pairs(c) + content_pairs(c, text) + extra_pairs(c.parameters@) + plugin_pairs(c)
}

/// One rendered `key=value` pair.
pub open spec fn pair_str(p: (Seq<char>, Seq<char>)) -> Seq<char> {
    p.0 + "="@ + p.1
}

/// All rendered `key=value` pairs, in emission order.
pub open spec fn rendered_pairs(c: Config, text: Seq<char>) -> Seq<Seq<char>> {
    query_pairs(c, text).map_values(|p: (Seq<char>, Seq<char>)| pair_str(p))
}

/// Rendered pairs joined with `&`.
pub open spec fn join_amp(ps: Seq<Seq<char>>) -> Seq<char>
    decreases ps.len(),
{
    if ps.len() == 0 {
        Seq::empty()
    } else if ps.len() == 1 {
        ps[0]
    } else {
        join_amp(ps.drop_last()) + "&"@ + ps.last()
    }
}

/// The built URL: scheme, action, and the joined query pairs after `?`
/// when any pair is emitted.
pub open spec fn spec_url(c: Config, text: Seq<char>) -> Seq<char> {
    if query_pairs(c, text).len() == 0 {
        "obsidian://"@ + c.action@
    } else {
        "obsidian://"@ + c.action@ + "?"@ + join_amp(rendered_pairs(c, text))
    }
}

/// Joining one more pair appends `&` and that pair.
proof fn lemma_join_amp_take(ps: Seq<Seq<char>>, i: int)
    requires
        1 <= i < ps.len(),
    ensures
        join_amp(ps.take(i + 1)) == join_amp(ps.take(i)) + "&"@ + ps[i],
{
    let t = ps.take(i + 1);
    assert(t.drop_last() =~= ps.take(i));
    assert(t.last() == ps[i]);
}

impl Default for Config {
    /// The default configuration: the `new` action and nothing else.
    fn default() -> (r: Self)
        ensures
            r.vault is None,
            r.action@ == "new"@,
            r.content_param is None,
            r.parameters@.len() == 0,
            r.plugin is None,
    {
        Config {
            vault: None,
            action: String::from_str("new"),
            content_param: None,
            parameters: Vec::new(),
            plugin: None,
        }
    }
}

impl Config {
    /// The name of the query parameter that carries the captured text,
    /// per [`spec_content_param_name`]: the explicit override when
    /// configured, else `content` for the `new` action, else nothing.
    pub fn get_content_param_name(&self) -> (r: Option<&str>)
        ensures
            match r {
                Some(name) => spec_content_param_name(*self) == Some(name@),
                None => spec_content_param_name(*self) is None,
            },
    {
        match &self.content_param {
            Some(param_name) => Some(param_name.as_str()),
            None => {
                if self.action == String::from_str("new") {
                    Some("content")
                } else {
                    None
                }
            },
        }
    }

    /// Builds the capture URL described by [`spec_url`]: the scheme and
    /// action, then `?` and the `&`-joined query pairs when any are
    /// emitted, every value percent-encoded.
    pub fn build_obsidian_url(&self, text: &str) -> (r: String)
        ensures
            r@ == spec_url(*self, text@),
    {
        let ghost qp = query_pairs(*self, text@);
        let ghost rp = rendered_pairs(*self, text@);
        let ghost base1: int = vault_pairs(*self).len() as int;
        let ghost base2: int = base1 + content_pairs(*self, text@).len() as int;
        let ghost base3: int = base2 + extra_pairs(self.parameters@).len() as int;

        let mut url = String::from_str("obsidian://");
        url.append(self.action.as_str());

        let mut params: Vec<String> = Vec::new();

        match &self.vault {
            Some(vault) => {
                let mut p = String::from_str("vault");
                p.append("=");
                let e = percent_encode(vault.as_str());
                p.append(e.as_str());
                params.push(p);
            },
            None => {},
        }
        assert(params@.len() == base1);
        assert(forall|j: int| 0 <= j < params@.len() ==> #[trigger] params@[j]@ == rp[j]);

        match self.get_content_param_name() {
            Some(param_name) => {
                let mut p = String::from_str(param_name);
                p.append("=");
                let e = percent_encode(text);
                p.append(e.as_str());
                params.push(p);
            },
            None => {},
        }
        assert(params@.len() == base2);
        assert(forall|j: int| 0 <= j < params@.len() ==> #[trigger] params@[j]@ == rp[j]);

        let n: usize = self.parameters.len();
        let mut i: usize = 0;
        while i < n
            invariant
                n == self.parameters@.len(),
                i <= n,
                qp == query_pairs(*self, text@),
                rp == rendered_pairs(*self, text@),
                base2 == vault_pairs(*self).len() + content_pairs(*self, text@).len(),
                params@.len() == base2 + i,
                forall|j: int| 0 <= j < params@.len() ==> #[trigger] params@[j]@ == rp[j],
            decreases n - i,
        {
            let kv = &self.parameters[i];
            let mut p = String::from_str(kv.0.as_str());
            p.append("=");
            let e = percent_encode(kv.1.as_str());
            p.append(e.as_str());
            params.push(p);
            assert(qp[base2 + i] == (self.parameters@[i as int].0@, pct_encode_str(
                self.parameters@[i as int].1@,
            )));
            i += 1;
        }
        assert(params@.len() == base3);

        match &self.plugin {
            Some(plugin) => {
                let mut p = String::from_str("plugin");
                p.append("=");
                let e = percent_encode(plugin.command.as_str());
                p.append(e.as_str());
                params.push(p);
                assert(qp[base3] == ("plugin"@, pct_encode_str(plugin.command@)));
                assert(forall|j: int| 0 <= j < params@.len() ==> #[trigger] params@[j]@ == rp[j]);

                let m: usize = plugin.params.len();
                let mut k: usize = 0;
                while k < m
                    invariant
                        m == plugin.params@.len(),
                        k <= m,
                        self.plugin == Some(*plugin),
                        qp == query_pairs(*self, text@),
                        rp == rendered_pairs(*self, text@),
                        base3 == qp.len() - 1 - m,
                        params@.len() == base3 + 1 + k,
                        forall|j: int| 0 <= j < params@.len() ==> #[trigger] params@[j]@ == rp[j],
                    decreases m - k,
                {
                    let kv = &plugin.params[k];
                    let mut p = String::from_str(kv.0.as_str());
                    p.append("=");
                    let e = percent_encode(kv.1.as_str());
                    p.append(e.as_str());
                    params.push(p);
                    assert(qp[base3 + 1 + k] == (plugin.params@[k as int].0@, pct_encode_str(
                        plugin.params@[k as int].1@,
                    )));
                    k += 1;
                }
            },
            None => {},
        }
        assert(params@.len() == qp.len());
        assert(rp.len() == qp.len());

        let count: usize = params.len();
        if count > 0 {
            url.append("?");
            url.append(params[0].as_str());
            assert(join_amp(rp.take(1)) == rp[0]);
            let mut t: usize = 1;
            while t < count
                invariant
                    1 <= t <= count,
                    count == params@.len(),
                    count == rp.len(),
                    rp == rendered_pairs(*self, text@),
                    forall|j: int| 0 <= j < params@.len() ==> #[trigger] params@[j]@ == rp[j],
                    url@ == "obsidian://"@ + self.action@ + "?"@ + join_amp(rp.take(t as int)),
                decreases count - t,
            {
                url.append("&");
                url.append(params[t].as_str());
                proof {
                    lemma_join_amp_take(rp, t as int);
                }
                t += 1;
            }
            assert(rp.take(count as int) =~= rp);
        }
        url
    }
}

} // verus!
