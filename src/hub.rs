use vstd::prelude::*;

verus! {

/// The hubs this loader knows how to talk to.
#[derive(Debug, Clone, Copy, PartialEq, Eq)]
pub enum HubKind {
    Huggingface,
}

/// A selected hub together with the local cache root it stores files under.
#[derive(Debug, Clone)]
pub struct ModelHub {
    pub kind: HubKind,
    pub cache_root: String,
}

/// The name under which each hub kind is selected.
pub open spec fn hub_name_spec(kind: HubKind) -> Seq<char> {
    match kind {
        HubKind::Huggingface => "Huggingface"@,
    }
}

/// Character-wise equality of two strings.
pub fn str_equal(a: &str, b: &str) -> (r: bool)
    ensures
        r == (a@ == b@),
{
    let n = a.unicode_len();
    let m = b.unicode_len();
    if n != m {
        return false;
    }
    let mut i: usize = 0;
    while i < n
        invariant
            n == a@.len(),
            m == b@.len(),
            n == m,
            i <= n,
            a@.subrange(0, i as int) == b@.subrange(0, i as int),
        decreases n - i,
    {
        if a.get_char(i) != b.get_char(i) {
            assert(a@[i as int] != b@[i as int]);
            return false;
        }
        assert(a@.subrange(0, i + 1) == a@.subrange(0, i as int).push(a@[i as int]));
        assert(b@.subrange(0, i + 1) == b@.subrange(0, i as int).push(b@[i as int]));
        i = i + 1;
    }
    assert(a@ == a@.subrange(0, n as int));
    assert(b@ == b@.subrange(0, n as int));
    true
}

/// Recognizes a hub by its name; `None` for a name no hub answers to.
pub fn parse_hub_kind(hub_name: &str) -> (r: Option<HubKind>)
    ensures
        r == (if hub_name@ == hub_name_spec(HubKind::Huggingface) {
            Some(HubKind::Huggingface)
        } else {
            None::<HubKind>
        }),
{
    if str_equal(hub_name, "Huggingface") {
        Some(HubKind::Huggingface)
    } else {
        None
    }
}

/// Selects the hub named `hub_name`, storing its files under `model_path`.
/// Only a supported hub name may be given: callers test it with
/// `parse_hub_kind` first.
pub fn get_model_hub(hub_name: &str, model_path: &str) -> (r: ModelHub)
    requires
        hub_name@ == hub_name_spec(HubKind::Huggingface),
    ensures
        r.kind == HubKind::Huggingface,
        r.cache_root@ == model_path@,
{
    ModelHub { kind: HubKind::Huggingface, cache_root: String::from_str(model_path) }
}

} // verus!
