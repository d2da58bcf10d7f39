//! Keybinding hints: the modifiers that a group of keys shares, and the
//! compact labels that a hint shows once those are written in front.
use vstd::prelude::*;

verus! {

broadcast use vstd::string::group_string_axioms;

/// A modifier key. The order of the variants is the order in which the host
/// lists a key's modifiers.
#[derive(PartialEq, Eq, Structural, Clone, Copy, Debug)]
pub enum Modifier {
    Ctrl,
    Alt,
    Shift,
    Super,
}

/// A key as a hint shows it: the label of the bare key (`a`, `ENTER`, `←`,
/// `F1`, ...), whether that key is a character key, and its modifiers, each
/// once, in the host's order.
#[derive(Debug)]
pub struct Key {
    pub bare: String,
    pub is_char: bool,
    pub modifiers: Vec<Modifier>,
}

/// Position of a modifier in the host's order.
pub open spec fn rank(m: Modifier) -> int {
    match m {
        Modifier::Ctrl => 0,
        Modifier::Alt => 1,
        Modifier::Shift => 2,
        Modifier::Super => 3,
    }
}

/// Each modifier at most once, in the host's order.
pub open spec fn is_modifier_set(ms: Seq<Modifier>) -> bool {
    forall|i: int, j: int| 0 <= i < j < ms.len() ==> rank(ms[i]) < rank(ms[j])
}

/// The name under which the host writes a modifier.
pub open spec fn modifier_name(m: Modifier) -> Seq<char> {
    match m {
        Modifier::Ctrl => "Ctrl"@,
        Modifier::Alt => "Alt"@,
        Modifier::Shift => "Shift"@,
        Modifier::Super => "Super"@,
    }
}

/// The names of `ms`, in order, with `sep` between each two.
pub open spec fn joined_names(ms: Seq<Modifier>, sep: Seq<char>) -> Seq<char>
    decreases ms.len(),
{
    if ms.len() == 0 {
        seq![]
    } else if ms.len() == 1 {
        modifier_name(ms[0])
    } else {
        joined_names(ms.drop_last(), sep) + sep + modifier_name(ms.last())
    }
}

/// Whether every key of `keys` carries `m`.
pub open spec fn shared_by_all(keys: Seq<Key>, m: Modifier) -> bool {
    forall|i: int| 0 <= i < keys.len() ==> #[trigger] keys[i].modifiers@.contains(m)
}

/// The modifiers of `ms` that `common` does not hold, in order.
pub open spec fn unshared(ms: Seq<Modifier>, common: Seq<Modifier>) -> Seq<Modifier>
    decreases ms.len(),
{
    if ms.len() == 0 {
        seq![]
    } else if common.contains(ms.last()) {
        unshared(ms.drop_last(), common)
    } else {
        unshared(ms.drop_last(), common).push(ms.last())
    }
}

/// A key's label once the modifiers in `common` are written elsewhere: its
/// remaining modifiers, space-separated, then the bare key. With no common
/// modifiers this is how the host writes the key.
pub open spec fn key_label(k: Key, common: Seq<Modifier>) -> Seq<char> {
    let rest = unshared(k.modifiers@, common);
    if rest.len() == 0 {
        k.bare@
    } else {
        joined_names(rest, " "@) + " "@ + k.bare@
    }
}

/// The labels `labels`, written one after the other.
pub open spec fn concat_labels(labels: Seq<Seq<char>>) -> Seq<char>
    decreases labels.len(),
{
    if labels.len() == 0 {
        seq![]
    } else {
        concat_labels(labels.drop_last()) + labels.last()
    }
}

/// What a list of strings holds.
pub open spec fn string_views(v: Seq<String>) -> Seq<Seq<char>> {
    v.map_values(|s: String| s@)
}

/// `m` alone where every key of `keys` carries it, else nothing.
pub open spec fn if_shared(keys: Seq<Key>, m: Modifier) -> Seq<Modifier> {
    if shared_by_all(keys, m) {
        seq![m]
    } else {
        seq![]
    }
}

/// The modifiers that every key of `keys` carries, in the host's order;
/// none for no keys.
pub open spec fn common_modifiers(keys: Seq<Key>) -> Seq<Modifier> {
    if keys.len() == 0 {
        seq![]
    } else {
        if_shared(keys, Modifier::Ctrl) + if_shared(keys, Modifier::Alt) + if_shared(
            keys,
            Modifier::Shift,
        ) + if_shared(keys, Modifier::Super)
    }
}

/// The label of each key of `keys` once `common` is written elsewhere.
pub open spec fn key_labels(keys: Seq<Key>, common: Seq<Modifier>) -> Seq<Seq<char>> {
    keys.map_values(|k: Key| key_label(k, common))
}

/// The separator between the labels of a group of keys.
pub open spec fn separator_for(labels: Seq<Seq<char>>) -> Seq<char> {
    if is_compact_run(concat_labels(labels)) {
        ""@
    } else {
        "|"@
    }
}

/// Whether `k` is the bare key labelled `name`, with no modifier. A
/// character key never counts: only named keys are looked for this way.
pub open spec fn is_named_key(k: Key, name: Seq<char>) -> bool {
    &&& !k.is_char
    &&& k.bare@ == name
    &&& k.modifiers@.len() == 0
}

/// Whether some key of `keys` is the bare named key `name`.
pub open spec fn has_named_key(keys: Seq<Key>, name: Seq<char>) -> bool {
    exists|i: int| 0 <= i < keys.len() && is_named_key(#[trigger] keys[i], name)
}

/// Key runs that read well without a separator between their keys.
pub open spec fn is_compact_run(s: Seq<char>) -> bool {
    ||| s == "HJKL"@
    ||| s == "hjkl"@
    ||| s == "←↓↑→"@
    ||| s == "←→"@
    ||| s == "↓↑"@
    ||| s == "[]"@
}

/// The name under which the host writes a modifier.
pub fn modifier_str(m: Modifier) -> (r: &'static str)
    ensures
        r@ == modifier_name(m),
{
    match m {
        Modifier::Ctrl => "Ctrl",
        Modifier::Alt => "Alt",
        Modifier::Shift => "Shift",
        Modifier::Super => "Super",
    }
}

/// Whether `ms` holds `m`.
fn has_modifier(ms: &Vec<Modifier>, m: Modifier) -> (r: bool)
    ensures
        r == ms@.contains(m),
{
    let mut i: usize = 0;
    while i < ms.len()
        invariant
            i <= ms.len(),
            forall|j: int| 0 <= j < i ==> ms@[j] != m,
        decreases ms.len() - i,
    {
        if ms[i] == m {
            return true;
        }
        i = i + 1;
    }
    false
}

/// Whether every key of `keys` carries `m`.
fn held_by_all(keys: &Vec<Key>, m: Modifier) -> (r: bool)
    ensures
        r == shared_by_all(keys@, m),
{
    let mut i: usize = 0;
    while i < keys.len()
        invariant
            i <= keys.len(),
            forall|j: int| 0 <= j < i ==> #[trigger] keys@[j].modifiers@.contains(m),
        decreases keys.len() - i,
    {
        if !has_modifier(&keys[i].modifiers, m) {
            return false;
        }
        i = i + 1;
    }
    true
}

/// The modifiers that every key of `key_bindings` carries, in the host's
/// order; none for no keys.
pub fn get_common_modifiers(key_bindings: &Vec<Key>) -> (r: Vec<Modifier>)
    ensures
        is_modifier_set(r@),
        key_bindings@.len() == 0 ==> r@.len() == 0,
        key_bindings@.len() > 0 ==> forall|m: Modifier|
            r@.contains(m) <==> shared_by_all(key_bindings@, m),
        r@ == common_modifiers(key_bindings@),
{
    let mut r: Vec<Modifier> = Vec::new();
    if key_bindings.len() == 0 {
        return r;
    }
    let ctrl = held_by_all(key_bindings, Modifier::Ctrl);
    let alt = held_by_all(key_bindings, Modifier::Alt);
    let shift = held_by_all(key_bindings, Modifier::Shift);
    let sup = held_by_all(key_bindings, Modifier::Super);
    if ctrl {
        r.push(Modifier::Ctrl);
    }
    if alt {
        r.push(Modifier::Alt);
    }
    if shift {
        r.push(Modifier::Shift);
    }
    if sup {
        r.push(Modifier::Super);
    }
    assert forall|m: Modifier| r@.contains(m) <==> shared_by_all(key_bindings@, m) by {
        if shared_by_all(key_bindings@, m) {
            match m {
                Modifier::Ctrl => assert(r@[0] == m),
                Modifier::Alt => assert(r@[if ctrl { 1int } else { 0 }] == m),
                Modifier::Shift => assert(r@[(if ctrl { 1int } else { 0 }) + if alt { 1int } else { 0 }] == m),
                Modifier::Super => assert(r@[r@.len() - 1] == m),
            }
        }
    }
    assert(r@ =~= common_modifiers(key_bindings@));
    r
}

/// The names of `ms`, in order, with `sep` between each two.
pub fn join_modifier_names(ms: &Vec<Modifier>, sep: &str) -> (r: String)
    ensures
        r@ == joined_names(ms@, sep@),
{
    let mut r = String::new();
    let mut i: usize = 0;
    assert(ms@.take(0) =~= Seq::<Modifier>::empty());
    while i < ms.len()
        invariant
            i <= ms.len(),
            r@ == joined_names(ms@.take(i as int), sep@),
        decreases ms.len() - i,
    {
        if i > 0 {
            r.append(sep);
        }
        r.append(modifier_str(ms[i]));
        assert(ms@.take(i + 1).drop_last() =~= ms@.take(i as int));
        i = i + 1;
    }
    assert(ms@.take(ms.len() as int) =~= ms@);
    r
}

/// The modifiers joined by `-`, as written in front of a group of keys.
pub fn format_modifier_string(modifiers: &Vec<Modifier>) -> (r: String)
    ensures
        r@ == joined_names(modifiers@, "-"@),
{
    join_modifier_names(modifiers, "-")
}

/// The label of `key` once `common_modifiers` are written elsewhere.
pub fn key_display(key: &Key, common_modifiers: &Vec<Modifier>) -> (r: String)
    ensures
        r@ == key_label(*key, common_modifiers@),
{
    let ghost ms = key.modifiers@;
    let mut rest: Vec<Modifier> = Vec::new();
    let mut i: usize = 0;
    assert(ms.take(0) =~= Seq::<Modifier>::empty());
    while i < key.modifiers.len()
        invariant
            i <= ms.len(),
            ms == key.modifiers@,
            rest@ == unshared(ms.take(i as int), common_modifiers@),
        decreases ms.len() - i,
    {
        let m = key.modifiers[i];
        assert(ms.take(i + 1).drop_last() =~= ms.take(i as int));
        if !has_modifier(common_modifiers, m) {
            rest.push(m);
        }
        i = i + 1;
    }
    assert(ms.take(ms.len() as int) =~= ms);
    if rest.len() == 0 {
        key.bare.clone()
    } else {
        let mut r = join_modifier_names(&rest, " ");
        r.append(" ");
        r.append(key.bare.as_str());
        r
    }
}

/// The label of each key, once `common_modifiers` are written elsewhere.
pub fn format_key_display(key_bindings: &Vec<Key>, common_modifiers: &Vec<Modifier>) -> (r: Vec<
    String,
>)
    ensures
        string_views(r@) == key_labels(key_bindings@, common_modifiers@),
{
    let mut r: Vec<String> = Vec::new();
    let mut i: usize = 0;
    while i < key_bindings.len()
        invariant
            i <= key_bindings@.len(),
            r@.len() == i,
            forall|j: int|
                0 <= j < i ==> #[trigger] r@[j]@ == key_label(key_bindings@[j], common_modifiers@),
        decreases key_bindings@.len() - i,
    {
        r.push(key_display(&key_bindings[i], common_modifiers));
        i = i + 1;
    }
    assert(string_views(r@) =~= key_labels(key_bindings@, common_modifiers@));
    r
}

/// The separator written between the labels of a group of keys: none where
/// together they read as a familiar run (`hjkl`, arrows, brackets), else `|`.
pub fn get_key_separator(key_display: &Vec<String>) -> (r: &'static str)
    ensures
        r@ == separator_for(string_views(key_display@)),
{
    let mut joined = String::new();
    let mut i: usize = 0;
    assert(string_views(key_display@.take(0)) =~= Seq::<Seq<char>>::empty());
    while i < key_display.len()
        invariant
            i <= key_display@.len(),
            joined@ == concat_labels(string_views(key_display@.take(i as int))),
        decreases key_display@.len() - i,
    {
        joined.append(key_display[i].as_str());
        assert(string_views(key_display@.take(i + 1)).drop_last() =~= string_views(
            key_display@.take(i as int),
        ));
        i = i + 1;
    }
    assert(key_display@.take(key_display@.len() as int) =~= key_display@);
    let compact = joined == "HJKL".to_string() || joined == "hjkl".to_string() || joined
        == "←↓↑→".to_string() || joined == "←→".to_string() || joined == "↓↑".to_string()
        || joined == "[]".to_string();
    if compact {
        ""
    } else {
        "|"
    }
}

/// A copy of `key`.
pub fn copy_key(key: &Key) -> (r: Key)
    ensures
        r.bare@ == key.bare@,
        r.is_char == key.is_char,
        r.modifiers@ == key.modifiers@,
{
    let mut modifiers: Vec<Modifier> = Vec::new();
    let mut i: usize = 0;
    while i < key.modifiers.len()
        invariant
            i <= key.modifiers@.len(),
            modifiers@ == key.modifiers@.take(i as int),
        decreases key.modifiers@.len() - i,
    {
        modifiers.push(key.modifiers[i]);
        i = i + 1;
        assert(modifiers@ =~= key.modifiers@.take(i as int));
    }
    assert(key.modifiers@.take(i as int) =~= key.modifiers@);
    Key { bare: key.bare.clone(), is_char: key.is_char, modifiers }
}

/// Whether some key of `keys` is the bare named key `name`.
pub fn contains_named_key(keys: &Vec<Key>, name: &str) -> (r: bool)
    ensures
        r == has_named_key(keys@, name@),
{
    let target = name.to_string();
    let mut i: usize = 0;
    while i < keys.len()
        invariant
            i <= keys@.len(),
            target@ == name@,
            forall|j: int| 0 <= j < i ==> !is_named_key(#[trigger] keys@[j], name@),
        decreases keys@.len() - i,
    {
        let k = &keys[i];
        if !k.is_char && k.bare == target && k.modifiers.len() == 0 {
            assert(is_named_key(keys@[i as int], name@));
            return true;
        }
        i = i + 1;
    }
    false
}

/// The bare named key `name`, with no modifier.
pub fn named_key(name: &str) -> (r: Key)
    ensures
        is_named_key(r, name@),
{
    Key { bare: name.to_string(), is_char: false, modifiers: Vec::new() }
}

/// The key that a hint offers for going back to normal mode: `ENTER` where
/// it is among `to_normal_keys`, else the first of them, else none.
pub fn get_select_key(to_normal_keys: &Vec<Key>) -> (r: Vec<Key>)
    ensures
        has_named_key(to_normal_keys@, "ENTER"@) ==> r@.len() == 1 && is_named_key(
            r@[0],
            "ENTER"@,
        ),
        !has_named_key(to_normal_keys@, "ENTER"@) && to_normal_keys@.len() == 0 ==> r@.len()
            == 0,
        !has_named_key(to_normal_keys@, "ENTER"@) && to_normal_keys@.len() > 0 ==> {
            &&& r@.len() == 1
            &&& r@[0].bare@ == to_normal_keys@[0].bare@
            &&& r@[0].is_char == to_normal_keys@[0].is_char
            &&& r@[0].modifiers@ == to_normal_keys@[0].modifiers@
        },
{
    let mut r: Vec<Key> = Vec::new();
    if contains_named_key(to_normal_keys, "ENTER") {
        r.push(named_key("ENTER"));
    } else if to_normal_keys.len() > 0 {
        r.push(copy_key(&to_normal_keys[0]));
    }
    r
}

/// The keys that a hint offers for moving between tabs: just `←` and `→`
/// where both are among `keys`, else all of `keys`.
pub fn arrow_keys_or_all(keys: Vec<Key>) -> (r: Vec<Key>)
    ensures
        has_named_key(keys@, "←"@) && has_named_key(keys@, "→"@) ==> {
            &&& r@.len() == 2
            &&& is_named_key(r@[0], "←"@)
            &&& is_named_key(r@[1], "→"@)
        },
        !(has_named_key(keys@, "←"@) && has_named_key(keys@, "→"@)) ==> r@ == keys@,
{
    if contains_named_key(&keys, "←") && contains_named_key(&keys, "→") {
        let mut r: Vec<Key> = Vec::new();
        r.push(named_key("←"));
        r.push(named_key("→"));
        r
    } else {
        keys
    }
}

} // verus!
