use vstd::prelude::*;

verus! {

/// The branch label under which a snapshot is re-exposed.
pub const DEFAULT_BRANCH_NAME: &'static str = "main";

/// What one character of a model identifier becomes in a directory name:
/// a `/` turns into `--`, anything else stays.
pub open spec fn escape_char(c: char) -> Seq<char> {
    if c == '/' {
        seq!['-', '-']
    } else {
        seq![c]
    }
}

/// A model identifier made safe as a single directory name.
pub open spec fn escape_model_id(s: Seq<char>) -> Seq<char>
    decreases s.len(),
{
    if s.len() == 0 {
        Seq::empty()
    } else {
        escape_model_id(s.drop_last()) + escape_char(s.last())
    }
}

/// The directory that holds everything cached for one model.
pub open spec fn model_dir_spec(cache_root: Seq<char>, model_id: Seq<char>) -> Seq<char> {
    cache_root + "/models--"@ + escape_model_id(model_id)
}

/// The directory the hub fills with one link per file of a revision.
pub open spec fn snapshot_dir_spec(
    cache_root: Seq<char>,
    model_id: Seq<char>,
    revision: Seq<char>,
) -> Seq<char> {
    model_dir_spec(cache_root, model_id) + "/snapshots/"@ + revision
}

/// The branch-named directory that mirrors a snapshot.
pub open spec fn alias_dir_spec(
    cache_root: Seq<char>,
    model_id: Seq<char>,
    branch: Seq<char>,
) -> Seq<char> {
    model_dir_spec(cache_root, model_id) + "/indices/"@ + branch
}

/// Replaces every `/` of a model identifier by `--`.
pub fn escape_model_id_exec(model_id: &str) -> (r: String)
    ensures
        r@ == escape_model_id(model_id@),
{
    let n = model_id.unicode_len();
    let mut out = String::new();
    let mut i: usize = 0;
    while i < n
        invariant
            n == model_id@.len(),
            i <= n,
            out@ == escape_model_id(model_id@.subrange(0, i as int)),
        decreases n - i,
    {
        let c = model_id.get_char(i);
        if c == '/' {
            out.append("--");
        } else {
            out.append(model_id.substring_char(i, i + 1));
        }
        proof {
            reveal_strlit("--");
            let next = model_id@.subrange(0, i + 1);
            assert(next.drop_last() == model_id@.subrange(0, i as int));
            assert(next.last() == c);
            assert(model_id@.subrange(i as int, i + 1) == seq![c]);
        }
        i = i + 1;
    }
    assert(model_id@.subrange(0, n as int) == model_id@);
    out
}

/// The directory that holds everything cached for `model_id` under `cache_root`.
pub fn model_dir(cache_root: &str, model_id: &str) -> (r: String)
    ensures
        r@ == model_dir_spec(cache_root@, model_id@),
{
    let mut out = String::from_str(cache_root);
    out.append("/models--");
    let escaped = escape_model_id_exec(model_id);
    out.append(escaped.as_str());
    out
}

/// The snapshot directory of one revision of a model.
pub fn snapshot_dir(cache_root: &str, model_id: &str, revision: &str) -> (r: String)
    ensures
        r@ == snapshot_dir_spec(cache_root@, model_id@, revision@),
{
    let mut out = model_dir(cache_root, model_id);
    out.append("/snapshots/");
    out.append(revision);
    out
}

/// The alias directory of a model under a branch label.
pub fn alias_dir(cache_root: &str, model_id: &str, branch: &str) -> (r: String)
    ensures
        r@ == alias_dir_spec(cache_root@, model_id@, branch@),
{
    let mut out = model_dir(cache_root, model_id);
    out.append("/indices/");
    out.append(branch);
    out
}

} // verus!
