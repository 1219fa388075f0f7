//! Editable shortcut settings shown inside the settings dialog.

use vstd::prelude::*;
use crate::actions::{
    ShortcutDefinition, ShortcutSettings, binding_in, default_map, default_of, definitions,
    law_defaults_are_trimmed, lemma_place, place_of, shortcuts,
};
use crate::text::{same, texts, trim, trimmed};

verus! {

/// What the form says above its rows.
pub const HELP: &'static str = "使用 GPUI 键名，例如 cmd-w、cmd-shift-n 或 space。保存后立即生效。";

/// The form: what stands in the input of each shortcut, in the order of the shortcuts.
#[derive(Debug)]
pub struct ShortcutSettingsForm {
    inputs: Vec<String>,
}

impl View for ShortcutSettingsForm {
    type V = Seq<Seq<char>>;

    closed spec fn view(&self) -> Seq<Seq<char>> {
        texts(self.inputs@)
    }
}

/// What the inputs hold for some settings.
pub open spec fn inputs_for(bindings: Map<Seq<char>, Seq<char>>) -> Seq<Seq<char>> {
    definitions().map_values(|d: ShortcutDefinition| binding_in(bindings, d.id@))
}

/// What the inputs hold at first.
pub open spec fn default_inputs() -> Seq<Seq<char>> {
    definitions().map_values(|d: ShortcutDefinition| d.default@)
}

/// The settings that the first `n` inputs make: each shortcut bound to what stands in its
/// input, without the white space around it, and the others to what they are bound to at
/// first.
pub open spec fn settings_from(inputs: Seq<Seq<char>>, n: int) -> Map<Seq<char>, Seq<char>> {
    Map::new(
        |id: Seq<char>| place_of(id) is Some,
        |id: Seq<char>|
            if place_of(id)->0 < n {
                trimmed(inputs[place_of(id)->0])
            } else {
                default_of(id)
            },
    )
}

/// A row of the form.
#[derive(Debug)]
pub struct ShortcutRow {
    pub label: &'static str,
    /// What the empty input shows.
    pub placeholder: &'static str,
    /// The place of the row's input.
    pub input: usize,
}

/// A group of rows.
#[derive(Debug)]
pub struct ShortcutGroup {
    pub title: &'static str,
    pub rows: Vec<ShortcutRow>,
}

/// The places of the shortcuts of a group among the first `n`.
pub open spec fn places_of(group: Seq<char>, n: int) -> Seq<int>
    decreases n,
{
    if n <= 0 {
        Seq::empty()
    } else if definitions()[n - 1].group@ == group {
        places_of(group, n - 1).push(n - 1)
    } else {
        places_of(group, n - 1)
    }
}

/// Whether the rows are those of the shortcuts of a group, in the order of the shortcuts.
pub open spec fn rows_show(rows: Seq<ShortcutRow>, group: Seq<char>) -> bool {
    &&& rows.map_values(|row: ShortcutRow| row.input as int) == places_of(
        group,
        definitions().len() as int,
    )
    &&& forall|i: int|
        0 <= i < rows.len() ==> (#[trigger] rows[i]).input < definitions().len() && rows[i].label
            == definitions()[rows[i].input as int].label && rows[i].placeholder
            == definitions()[rows[i].input as int].default
}

fn rows_in(group: &str) -> (r: Vec<ShortcutRow>)
    ensures
        rows_show(r@, group@),
{
    let all = shortcuts();
    let mut r: Vec<ShortcutRow> = Vec::new();
    let mut i: usize = 0;
    assert(r@.map_values(|row: ShortcutRow| row.input as int) =~= Seq::<int>::empty());
    while i < all.len()
        invariant
            all@ == definitions(),
            i <= all@.len(),
            r@.map_values(|row: ShortcutRow| row.input as int) == places_of(group@, i as int),
            forall|k: int|
                0 <= k < r@.len() ==> (#[trigger] r@[k]).input < definitions().len() && r@[k].label
                    == definitions()[r@[k].input as int].label && r@[k].placeholder
                    == definitions()[r@[k].input as int].default,
        decreases all@.len() - i,
    {
        if same(all[i].group, group) {
            let ghost before = r@;
            r.push(
                ShortcutRow { label: all[i].label, placeholder: all[i].default, input: i },
            );
            assert(r@.map_values(|row: ShortcutRow| row.input as int) =~= before.map_values(
                |row: ShortcutRow| row.input as int,
            ).push(i as int));
        }
        i = i + 1;
    }
    r
}

impl ShortcutSettingsForm {
    #[verifier::type_invariant]
    spec fn one_input_each(self) -> bool {
        self.inputs@.len() == definitions().len()
    }

    /// A form that shows what each shortcut is bound to.
    pub fn new(settings: &ShortcutSettings) -> (r: ShortcutSettingsForm)
        ensures
            r@ == inputs_for(settings@),
    {
        let all = shortcuts();
        let mut inputs: Vec<String> = Vec::new();
        let mut i: usize = 0;
        while i < all.len()
            invariant
                all@ == definitions(),
                i <= all@.len(),
                inputs@.len() == i,
                forall|k: int|
                    0 <= k < i ==> (#[trigger] inputs@[k])@ == binding_in(
                        settings@,
                        definitions()[k].id@,
                    ),
            decreases all@.len() - i,
        {
            inputs.push(settings.get(all[i].id).to_owned());
            i = i + 1;
        }
        let r = ShortcutSettingsForm { inputs };
        assert(r@ =~= inputs_for(settings@));
        r
    }

    /// What stands in the input of the shortcut at a place.
    pub fn input(&self, i: usize) -> (r: &str)
        requires
            i < self@.len(),
        ensures
            r@ == self@[i as int],
    {
        self.inputs[i].as_str()
    }

    /// Takes what was typed into the input of the shortcut at a place.
    pub fn set_input(&mut self, i: usize, typed: &str)
        requires
            i < old(self)@.len(),
        ensures
            final(self)@ == old(self)@.update(i as int, typed@),
    {
        proof {
            use_type_invariant(&*self);
        }
        let ghost before = self@;
        let mut inputs = self.copy_inputs();
        inputs.set(i, typed.to_owned());
        self.inputs = inputs;
        assert(self@ =~= before.update(i as int, typed@));
    }

    fn copy_inputs(&self) -> (r: Vec<String>)
        ensures
            texts(r@) == self@,
            r@.len() == self.inputs@.len(),
    {
        let mut r: Vec<String> = Vec::new();
        let mut i: usize = 0;
        while i < self.inputs.len()
            invariant
                i <= self.inputs@.len(),
                r@.len() == i,
                forall|k: int| 0 <= k < i ==> (#[trigger] r@[k])@ == self.inputs@[k]@,
            decreases self.inputs@.len() - i,
        {
            r.push(self.inputs[i].clone());
            i = i + 1;
        }
        assert(texts(r@) =~= self@);
        r
    }

    /// The settings that the inputs make.
    pub fn settings(&self) -> (r: ShortcutSettings)
        ensures
            self@.len() == definitions().len(),
            r@ == settings_from(self@, definitions().len() as int),
    {
        proof {
            use_type_invariant(self);
        }
        let all = shortcuts();
        let mut r = ShortcutSettings::default();
        let mut i: usize = 0;
        assert(r@ =~= settings_from(self@, 0)) by {
            assert forall|id: Seq<char>| place_of(id) is Some implies place_of(id)->0 >= 0 by {}
        }
        while i < all.len()
            invariant
                all@ == definitions(),
                i <= all@.len(),
                self.inputs@.len() == all@.len(),
                r@ == settings_from(self@, i as int),
            decreases all@.len() - i,
        {
            let ghost before = r@;
            r.set(all[i].id, trim(self.inputs[i].as_str()).to_owned());
            proof {
                let id = definitions()[i as int].id@;
                lemma_place(i as int);
                assert forall|other: Seq<char>|
                    place_of(other) is Some && other != id implies place_of(other)->0 != i by {}
                assert(self@[i as int] == self.inputs@[i as int]@);
                assert(r@ =~= settings_from(self@, i + 1));
            }
            i = i + 1;
        }
        r
    }

    /// Puts into every input what its shortcut is bound to at first.
    pub fn restore_defaults(&mut self)
        ensures
            final(self)@ == default_inputs(),
    {
        let defaults = ShortcutSettings::default();
        let fresh = ShortcutSettingsForm::new(&defaults);
        *self = fresh;
        proof {
            assert forall|i: int| 0 <= i < definitions().len() implies (
            #[trigger] inputs_for(default_map())[i]) == default_inputs()[i] by {
                lemma_place(i);
            }
            assert(inputs_for(default_map()) =~= default_inputs());
        }
    }

    /// The form's rows, group by group.
    pub fn groups(&self) -> (r: Vec<ShortcutGroup>)
        ensures
            r@.map_values(|g: ShortcutGroup| g.title) == seq!["浏览", "文件", "标签页与应用"],
            forall|i: int| 0 <= i < r@.len() ==> rows_show((#[trigger] r@[i]).rows@, r@[i].title@),
    {
        let r: Vec<ShortcutGroup> = vec![
            ShortcutGroup { title: "浏览", rows: rows_in("浏览") },
            ShortcutGroup { title: "文件", rows: rows_in("文件") },
            ShortcutGroup { title: "标签页与应用", rows: rows_in("标签页与应用") },
        ];
        assert(r@.map_values(|g: ShortcutGroup| g.title) =~= seq![
            "浏览",
            "文件",
            "标签页与应用",
        ]);
        r
    }
}

/// Saving what the form shows, with nothing typed, keeps every binding but for the white
/// space around it.
pub proof fn law_untouched_form_keeps_bindings(bindings: Map<Seq<char>, Seq<char>>, i: int)
    requires
        0 <= i < definitions().len(),
    ensures
        binding_in(
            settings_from(inputs_for(bindings), definitions().len() as int),
            definitions()[i].id@,
        ) == trimmed(binding_in(bindings, definitions()[i].id@)),
{
    lemma_place(i);
}

/// Restoring the defaults makes the settings nobody has changed.
pub proof fn law_restored_defaults_are_the_defaults()
    ensures
        settings_from(default_inputs(), definitions().len() as int) == default_map(),
{
    let restored = settings_from(default_inputs(), definitions().len() as int);
    assert forall|id: Seq<char>| place_of(id) is Some implies #[trigger] restored[id]
        == default_map()[id] by {
        law_defaults_are_trimmed(place_of(id)->0);
    }
    assert(restored =~= default_map());
}

/// Every shortcut has a row in one of the groups.
pub proof fn law_every_shortcut_has_a_row(i: int)
    requires
        0 <= i < definitions().len(),
    ensures
        ({
            let n = definitions().len() as int;
            ||| places_of("浏览"@, n).contains(i)
            ||| places_of("文件"@, n).contains(i)
            ||| places_of("标签页与应用"@, n).contains(i)
        }),
{
    lemma_places(definitions()[i].group@, definitions().len() as int, i);
}

proof fn lemma_places(group: Seq<char>, n: int, i: int)
    requires
        0 <= i < n <= definitions().len(),
        definitions()[i].group@ == group,
    ensures
        places_of(group, n).contains(i),
    decreases n,
{
    let all = places_of(group, n);
    if i == n - 1 {
        assert(all[all.len() - 1] == i);
    } else {
        lemma_places(group, n - 1, i);
        let before = places_of(group, n - 1);
        let k = choose|k: int| 0 <= k < before.len() && before[k] == i;
        assert(all[k] == i);
    }
}

/// The form has an input for each shortcut that holds what it is bound to, and what an input
/// holds is what its shortcut gets, without the white space around it.
pub proof fn law_each_input_is_its_shortcuts(
    bindings: Map<Seq<char>, Seq<char>>,
    inputs: Seq<Seq<char>>,
    i: int,
)
    requires
        0 <= i < definitions().len(),
        inputs.len() == definitions().len(),
    ensures
        inputs_for(bindings).len() == definitions().len(),
        inputs_for(bindings)[i] == binding_in(bindings, definitions()[i].id@),
        default_inputs().len() == definitions().len(),
        default_inputs()[i] == definitions()[i].default@,
        settings_from(inputs, definitions().len() as int).contains_key(definitions()[i].id@),
        settings_from(inputs, definitions().len() as int)[definitions()[i].id@] == trimmed(
            inputs[i],
        ),
{
    lemma_place(i);
}

/// The form's settings are about shortcuts and nothing else.
pub proof fn law_only_shortcuts_are_set(inputs: Seq<Seq<char>>, id: Seq<char>)
    requires
        settings_from(inputs, definitions().len() as int).contains_key(id),
    ensures
        exists|i: int| 0 <= i < definitions().len() && (#[trigger] definitions()[i]).id@ == id,
{
}

/// A group's rows are those of the shortcuts of the group, each once, in their order.
pub proof fn law_groups_hold_their_shortcuts(group: Seq<char>, i: int)
    requires
        0 <= i < definitions().len(),
    ensures
        places_of(group, definitions().len() as int).contains(i) <==> definitions()[i].group@
            == group,
        forall|k: int, l: int|
            0 <= k < l < places_of(group, definitions().len() as int).len() ==> #[trigger] places_of(
                group,
                definitions().len() as int,
            )[k] < #[trigger] places_of(group, definitions().len() as int)[l],
{
    lemma_group(group, definitions().len() as int);
}

proof fn lemma_group(group: Seq<char>, n: int)
    requires
        0 <= n <= definitions().len(),
    ensures
        forall|i: int|
            #![trigger places_of(group, n).contains(i)]
            places_of(group, n).contains(i) <==> 0 <= i < n && definitions()[i].group@ == group,
        forall|k: int|
            0 <= k < places_of(group, n).len() ==> 0 <= #[trigger] places_of(group, n)[k] < n,
        forall|k: int, l: int|
            0 <= k < l < places_of(group, n).len() ==> #[trigger] places_of(group, n)[k]
                < #[trigger] places_of(group, n)[l],
    decreases n,
{
    if n > 0 {
        lemma_group(group, n - 1);
        let before = places_of(group, n - 1);
        let all = places_of(group, n);
        assert forall|i: int| #![trigger all.contains(i)]
            all.contains(i) <==> 0 <= i < n && definitions()[i].group@ == group by {
            if before.contains(i) {
                let k = choose|k: int| 0 <= k < before.len() && before[k] == i;
                assert(all[k] == i);
            }
            if all.contains(i) {
                let k = choose|k: int| 0 <= k < all.len() && all[k] == i;
                if k < before.len() {
                    assert(before[k] == i);
                    assert(before.contains(i));
                }
            }
            if i == n - 1 && definitions()[n - 1].group@ == group {
                assert(all[all.len() - 1] == i);
            }
        }
        assert forall|k: int| 0 <= k < all.len() implies 0 <= #[trigger] all[k] < n by {
            if k < before.len() {
                assert(all[k] == before[k]);
            }
        }
        assert forall|k: int, l: int| 0 <= k < l < all.len() implies #[trigger] all[k]
            < #[trigger] all[l] by {
            assert(all[k] == before[k]);
            if l < before.len() {
                assert(all[l] == before[l]);
            }
        }
    }
}

/// A row of a group is labelled and prompted as its own shortcut is, which is one of the group.
pub proof fn law_rows_are_their_shortcuts(rows: Seq<ShortcutRow>, group: Seq<char>, k: int)
    requires
        rows_show(rows, group),
        0 <= k < rows.len(),
    ensures
        rows[k].input < definitions().len(),
        definitions()[rows[k].input as int].group@ == group,
        rows[k].label == definitions()[rows[k].input as int].label,
        rows[k].placeholder == definitions()[rows[k].input as int].default,
        HELP@ == "使用 GPUI 键名，例如 cmd-w、cmd-shift-n 或 space。保存后立即生效。"@,
{
    let places = rows.map_values(|row: ShortcutRow| row.input as int);
    let i = rows[k].input as int;
    assert(places[k] == i);
    assert(places.contains(i));
    law_groups_hold_their_shortcuts(group, i);
}

} // verus!
