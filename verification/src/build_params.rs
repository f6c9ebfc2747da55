//! Parameters of the plugin build helper: the custom assets a build copies
//! into the plugin's artifact directory, each as a source path and a target
//! path inside the assets folder.

use vstd::prelude::*;
use vstd::string::StrSliceExecFns;
use vstd::string::StringExecFns;
use crate::text::spec_basename;

verus! {

/// The build helper's parameters.
#[derive(Debug)]
pub struct Params {
    pub custom_assets: Vec<(String, String)>,
}

/// Builds `Params`: assets accumulate over calls.
#[derive(Debug)]
pub struct ParamsBuilder {
    custom_assets: Option<Vec<(String, String)>>,
}

impl Default for ParamsBuilder {
    /// A builder with no asset.
    fn default() -> (r: Self)
        ensures
            r.spec_custom_assets() is None,
    {
        ParamsBuilder { custom_assets: None }
    }
}

impl ParamsBuilder {
    /// The assets gathered so far.
    pub closed spec fn spec_custom_assets(self) -> Option<Vec<(String, String)>> {
        self.custom_assets
    }

    /// The assets gathered so far, as pairs of views.
    pub open spec fn spec_assets_seq(self) -> Seq<(Seq<char>, Seq<char>)> {
        match self.spec_custom_assets() {
            None => Seq::<(Seq<char>, Seq<char>)>::empty(),
            Some(v) => v@.map(|i: int, a: (String, String)| (a.0@, a.1@)),
        }
    }

    /// Adds assets copied under their own file names: each source path is
    /// paired with its basename as the target.
    pub fn custom_assets(&mut self, assets: Vec<String>) -> (ret: &mut ParamsBuilder)
        ensures
            (*ret).spec_assets_seq() == old(self).spec_assets_seq_after_add(
                assets@.map(|i: int, a: String| (a@, spec_basename(a@))),
            ),
            *final(self) == *final(ret),
    {
        let n = assets.len();
        let mut pairs: Vec<(String, String)> = Vec::new();
        let mut i: usize = 0;
        while i < n
            invariant
                0 <= i <= n,
                n == assets@.len(),
                pairs@.len() == i,
                forall|k: int|
                    0 <= k < i ==> (#[trigger] pairs@[k]).0@ == assets@[k]@ && pairs@[k].1@
                        == spec_basename(assets@[k]@),
            decreases n - i,
        {
            let target = crate::text::basename(assets[i].as_str()).to_owned();
            let source = assets[i].clone();
            pairs.push((source, target));
            i += 1;
        }
        let ret = self.custom_assets_with_targets(pairs);
        proof {
            assert((*ret).spec_assets_seq() =~= old(self).spec_assets_seq_after_add(
                assets@.map(|i: int, a: String| (a@, spec_basename(a@))),
            ));
        }
        ret
    }

    /// What the asset list is after appending these pairs.
    pub open spec fn spec_assets_seq_after_add(
        self,
        added: Seq<(Seq<char>, Seq<char>)>,
    ) -> Seq<(Seq<char>, Seq<char>)> {
        self.spec_assets_seq() + added
    }

    /// Adds assets copied to explicit targets inside the assets folder.
    pub fn custom_assets_with_targets(&mut self, assets: Vec<(String, String)>) -> (ret:
        &mut ParamsBuilder)
        ensures
            (*ret).spec_assets_seq() == old(self).spec_assets_seq_after_add(
                assets@.map(|i: int, a: (String, String)| (a.0@, a.1@)),
            ),
            *final(self) == *final(ret),
    {
        let mut current: Vec<(String, String)> = match self.custom_assets.take() {
            Some(v) => v,
            None => Vec::new(),
        };
        let ghost base = current@;
        let n = assets.len();
        let ghost added = assets@;
        let mut rest = assets;
        let mut i: usize = 0;
        proof {
            assert(added.skip(0) =~= added);
        }
        while i < n
            invariant
                0 <= i <= n,
                n == added.len(),
                rest@ == added.skip(i as int),
                current@ == base + added.take(i as int),
            decreases n - i,
        {
            proof {
                assert(added.skip(i as int)[0] == added[i as int]);
                assert(added.skip(i as int).remove(0) =~= added.skip(i as int + 1));
                assert((base + added.take(i as int)).push(added[i as int]) =~= base + added.take(
                    i as int + 1,
                ));
            }
            let a = rest.remove(0);
            current.push(a);
            i += 1;
        }
        proof {
            assert(added.take(n as int) =~= added);
        }
        self.custom_assets = Some(current);
        proof {
            assert(self.spec_assets_seq() =~= old(self).spec_assets_seq_after_add(
                added.map(|k: int, a: (String, String)| (a.0@, a.1@)),
            ));
        }
        self
    }

    /// Finishes the builder; without assets the list is empty.
    pub fn build(self) -> (r: Params)
        ensures
            r.custom_assets@.map(|i: int, a: (String, String)| (a.0@, a.1@))
                == self.spec_assets_seq(),
    {
        let custom_assets = match self.custom_assets {
            Some(v) => v,
            None => Vec::new(),
        };
        proof {
            assert(custom_assets@.map(|i: int, a: (String, String)| (a.0@, a.1@))
                =~= self.spec_assets_seq());
        }
        Params { custom_assets }
    }
}

/// Whether a target path stays inside the assets folder: not absolute and
/// with no parent step. Assets whose target leaves the folder are skipped.
pub fn target_stays_inside(target: &str) -> (r: bool)
    ensures
        r == spec_target_inside(target@),
{
    let len = target.unicode_len();
    if len == 0 {
        return true;
    }
    if target.get_char(0) == '/' {
        return false;
    }
    !has_parent_component(target)
}

/// A path is inside when it is relative and no `/`-separated component is
/// `..`.
pub open spec fn spec_target_inside(t: Seq<char>) -> bool {
    &&& (t.len() > 0 ==> t[0] != '/')
    &&& !spec_has_parent_component(t)
}

/// Whether some `/`-separated component of the path is `..`.
pub open spec fn spec_has_parent_component(t: Seq<char>) -> bool {
    exists|i: int|
        {
            &&& 0 <= i
            &&& i + 2 <= t.len()
            &&& (#[trigger] t.subrange(i, i + 2)) == ".."@
            &&& (i == 0 || t[i - 1] == '/')
            &&& (i + 2 == t.len() || t[i + 2] == '/')
        }
}

fn has_parent_component(t: &str) -> (r: bool)
    ensures
        r == spec_has_parent_component(t@),
{
    let len = t.unicode_len();
    if len < 2 {
        proof {
            reveal_strlit("..");
            assert forall|i: int|
                !(0 <= i && i + 2 <= t@.len() && (#[trigger] t@.subrange(i, i + 2)) == ".."@ && (i
                    == 0 || t@[i - 1] == '/') && (i + 2 == t@.len() || t@[i + 2] == '/')) by {}
        }
        return false;
    }
    let mut i: usize = 0;
    while i <= len - 2
        invariant
            0 <= i,
            i <= len,
            len == t@.len(),
            len >= 2,
            forall|k: int|
                0 <= k < i ==> !(k + 2 <= t@.len() && (#[trigger] t@.subrange(k, k + 2)) == ".."@
                    && (k == 0 || t@[k - 1] == '/') && (k + 2 == t@.len() || t@[k + 2] == '/')),
        decreases len - i,
    {
        let c0 = t.get_char(i);
        let c1 = t.get_char(i + 1);
        let at_start = i == 0 || t.get_char(i - 1) == '/';
        let at_end = i + 2 == len || t.get_char(i + 2) == '/';
        if c0 == '.' && c1 == '.' && at_start && at_end {
            proof {
                reveal_strlit("..");
                assert(t@.subrange(i as int, i as int + 2) =~= ".."@);
            }
            return true;
        }
        proof {
            reveal_strlit("..");
            if t@.subrange(i as int, i as int + 2) == ".."@ {
                assert(t@[i as int] == '.' && t@[i as int + 1] == '.') by {
                    assert(t@.subrange(i as int, i as int + 2)[0] == t@[i as int]);
                    assert(t@.subrange(i as int, i as int + 2)[1] == t@[i as int + 1]);
                }
            }
        }
        i += 1;
    }
    false
}

} // verus!
