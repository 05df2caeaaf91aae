use indexmap::IndexMap;
use vstd::prelude::*;

use crate::index_map::{entries_contain, int_map_entries, name_map_entries, name_map_get_index, name_map_insert, name_map_len};
use crate::raw_plot::{entry_or, grow, int_entry_or_default, is_max_key, max_key, IntPlotType};
use crate::text::{ascii_ci_eq, ascii_lower_code, eq_ignore_ascii_case, unicase_eq, unicase_equal};

verus! {

/// The plots of a category of the plot database, as (plot id, label).
pub struct PlotCategoryDb {
    pub booleans: Vec<(usize, String)>,
    pub integers: Vec<(usize, String)>,
}

/// How far the Mass Effect 1 plots imported into a Mass Effect 3 save
/// stand from their Mass Effect 1 ids.
pub const ME1_IMPORT_OFFSET: usize = 10_000;

/// The id a category plot has in the save: its database id, moved by the
/// import offset for Mass Effect 1 plots imported into Mass Effect 3.
pub open spec fn plot_id(k: usize, imported: bool) -> int {
    if imported {
        k + 10_000
    } else {
        k as int
    }
}

/// A list long enough for the largest id of `entries` (moved as
/// `plot_id` says); nothing changes when there are no entries.
pub open spec fn grown_for_ids<T>(s: Seq<T>, entries: Seq<(usize, String)>, imported: bool, fill: T) -> Seq<T> {
    if entries.len() == 0 {
        s
    } else {
        crate::raw_plot::grown(s, plot_id(choose|m: usize| is_max_key(entries, m), imported) + 1, fill)
    }
}

/// The database ids, moved as `plot_id` says, leave room for one more id.
pub open spec fn ids_fit(entries: Seq<(usize, String)>, imported: bool) -> bool {
    forall|i: int| 0 <= i < entries.len() ==> plot_id(#[trigger] entries[i].0, imported) < usize::MAX
}

/// The largest key is the one that `grown_for_ids` uses.
proof fn lemma_max_key_is_chosen(entries: Seq<(usize, String)>, m: usize)
    requires
        is_max_key(entries, m),
    ensures
        (choose|k: usize| is_max_key(entries, k)) == m,
{
    let k = choose|k: usize| is_max_key(entries, k);
    assert(is_max_key(entries, k));
    let i = choose|i: int| 0 <= i < entries.len() && #[trigger] entries[i].0 == m;
    let j = choose|j: int| 0 <= j < entries.len() && #[trigger] entries[j].0 == k;
    assert(entries[i].0 <= k);
    assert(entries[j].0 <= m);
}

/// Makes a list long enough for the largest id of `entries` (see
/// `grown_for_ids`).
pub fn grow_for_ids<T: Copy>(v: &mut Vec<T>, entries: &Vec<(usize, String)>, imported: bool, fill: T)
    requires
        ids_fit(entries@, imported),
    ensures
        final(v)@ == grown_for_ids(old(v)@, entries@, imported, fill),
{
    match max_key(entries) {
        Some(m) => {
            proof {
                lemma_max_key_is_chosen(entries@, m);
                let i = choose|i: int| 0 <= i < entries@.len() && #[trigger] entries@[i].0 == m;
                assert(plot_id(entries@[i].0, imported) < usize::MAX);
            }
            let max = if imported { m + ME1_IMPORT_OFFSET } else { m };
            if max >= v.len() {
                grow(v, max + 1, fill);
            } else {
                proof {
                    assert(crate::raw_plot::grown(v@, max + 1, fill) == v@);
                }
            }
        },
        None => {},
    }
}

/// `entries` with an entry, 0, for each id of `keys` (moved as `plot_id`
/// says, taken as `i32`) that it lacks, in the order of `keys`.
pub open spec fn entries_for_ids(entries: Seq<(i32, i32)>, keys: Seq<(usize, String)>, imported: bool) -> Seq<(i32, i32)>
    decreases keys.len(),
{
    if keys.len() == 0 {
        entries
    } else {
        entry_or(
            entries_for_ids(entries, keys.drop_last(), imported),
            plot_id(keys.last().0, imported) as i32,
            0i32,
        )
    }
}

/// The plots of a category after making room for each of its plots:
/// the boolean list and an integer list grow to the largest id, an integer
/// map gets each missing id with 0.
pub open spec fn category_plots_added(
    booleans: Seq<bool>,
    new_booleans: Seq<bool>,
    integers: IntPlotType,
    new_integers: IntPlotType,
    category: PlotCategoryDb,
    imported: bool,
) -> bool {
    &&& new_booleans == grown_for_ids(booleans, category.booleans@, imported, false)
    &&& match (integers, new_integers) {
        (IntPlotType::Vec(a), IntPlotType::Vec(b)) => b@ == grown_for_ids(a@, category.integers@, imported, 0i32),
        (IntPlotType::IndexMap(a), IntPlotType::IndexMap(b)) => int_map_entries(b) == entries_for_ids(
            int_map_entries(a),
            category.integers@,
            imported,
        ),
        _ => false,
    }
}

/// Makes room for each plot of a category (see `category_plots_added`);
/// `imported` says the category holds Mass Effect 1 plots imported into a
/// Mass Effect 3 save.
pub fn add_missing_category_plots(
    booleans: &mut Vec<bool>,
    integers: &mut IntPlotType,
    category: &PlotCategoryDb,
    imported: bool,
)
    requires
        ids_fit(category.booleans@, imported),
        ids_fit(category.integers@, imported),
    ensures
        category_plots_added(old(booleans)@, final(booleans)@, *old(integers), *final(integers), *category, imported),
{
    grow_for_ids(booleans, &category.booleans, imported, false);
    match integers {
        IntPlotType::Vec(v) => grow_for_ids(v, &category.integers, imported, 0i32),
        IntPlotType::IndexMap(m) => int_entries_for_ids(m, &category.integers, imported),
    }
}

/// Gives an integer map an entry, 0, for each id of `keys` (see
/// `entries_for_ids`) that it lacks.
pub fn int_entries_for_ids(m: &mut IndexMap<i32, i32>, keys: &Vec<(usize, String)>, imported: bool)
    requires
        ids_fit(keys@, imported),
    ensures
        int_map_entries(*final(m)) == entries_for_ids(int_map_entries(*old(m)), keys@, imported),
{
    let mut i: usize = 0;
    while i < keys.len()
        invariant
            i <= keys@.len(),
            ids_fit(keys@, imported),
            int_map_entries(*m) == entries_for_ids(int_map_entries(*old(m)), keys@.take(i as int), imported),
        decreases keys@.len() - i,
    {
        proof {
            assert(plot_id(keys@[i as int].0, imported) < usize::MAX);
        }
        let id = if imported { keys[i].0 + ME1_IMPORT_OFFSET } else { keys[i].0 };
        int_entry_or_default(m, id as i32);
        proof {
            assert(keys@.take(i + 1).drop_last() =~= keys@.take(i as int));
        }
        i = i + 1;
    }
    proof {
        assert(keys@.take(i as int) =~= keys@);
    }
}

/// The plot flags and player variables that a plot page shows.
pub struct PlotVariableDb {
    pub booleans: Vec<(usize, String)>,
    /// Player variable names, with their labels.
    pub variables: Vec<(String, String)>,
}

/// Whether some variable of `entries` has the name `name` (ASCII case
/// ignored).
pub open spec fn has_variable(entries: Seq<(Seq<char>, i32)>, name: Seq<char>) -> bool {
    exists|i: int| 0 <= i < entries.len() && ascii_ci_eq(#[trigger] entries[i].0, name)
}

/// `entries` with a variable, 0, for each name of `names` that it lacks
/// (ASCII case ignored), in the order of `names`.
pub open spec fn variables_for_names(entries: Seq<(Seq<char>, i32)>, names: Seq<(String, String)>) -> Seq<(Seq<char>, i32)>
    decreases names.len(),
{
    if names.len() == 0 {
        entries
    } else {
        let before = variables_for_names(entries, names.drop_last());
        if has_variable(before, names.last().0@) {
            before
        } else {
            before.push((names.last().0@, 0i32))
        }
    }
}

/// Every text equals itself with ASCII case ignored.
pub proof fn lemma_ascii_ci_eq_reflexive(a: Seq<char>)
    ensures
        ascii_ci_eq(a, a),
{
}

/// Whether some variable of `variables` has the name `name` (ASCII case
/// ignored).
pub fn find_variable(variables: &IndexMap<String, i32>, name: &str) -> (res: Option<usize>)
    ensures
        res matches Some(i) ==> i < name_map_entries(*variables).len() && ascii_ci_eq(name_map_entries(*variables)[i as int].0, name@),
        res matches Some(i) ==> forall|j: int| 0 <= j < i ==> !ascii_ci_eq(#[trigger] name_map_entries(*variables)[j].0, name@),
        res is None <==> !has_variable(name_map_entries(*variables), name@),
{
    let n = name_map_len(variables);
    let ghost entries = name_map_entries(*variables);
    let mut i: usize = 0;
    while i < n
        invariant
            i <= n,
            n == entries.len(),
            entries == name_map_entries(*variables),
            forall|j: int| 0 <= j < i ==> !ascii_ci_eq(#[trigger] entries[j].0, name@),
        decreases n - i,
    {
        let (key, _) = name_map_get_index(variables, i).unwrap();
        if eq_ignore_ascii_case(key.as_str(), name) {
            return Some(i);
        }
        i = i + 1;
    }
    None
}

/// Makes room for the plots of a plot page: the flag list grows to its
/// largest flag, and each of its player variables that no variable names
/// (ASCII case ignored) is added with 0.
pub fn add_missing_variable_plots(booleans: &mut Vec<bool>, variables: &mut IndexMap<String, i32>, db: &PlotVariableDb)
    requires
        ids_fit(db.booleans@, false),
    ensures
        final(booleans)@ == grown_for_ids(old(booleans)@, db.booleans@, false, false),
        name_map_entries(*final(variables)) == variables_for_names(name_map_entries(*old(variables)), db.variables@),
{
    grow_for_ids(booleans, &db.booleans, false, false);
    let names = &db.variables;
    let mut i: usize = 0;
    while i < names.len()
        invariant
            i <= names@.len(),
            name_map_entries(*variables) == variables_for_names(name_map_entries(*old(variables)), names@.take(i as int)),
        decreases names@.len() - i,
    {
        let ghost before = name_map_entries(*variables);
        proof {
            assert(names@.take(i + 1).drop_last() =~= names@.take(i as int));
            assert(names@.take(i + 1).last() == names@[i as int]);
        }
        if find_variable(variables, names[i].0.as_str()).is_none() {
            proof {
                lemma_ascii_ci_eq_reflexive(names@[i as int].0@);
                if entries_contain(before, names@[i as int].0@) {
                    let j = choose|j: int| 0 <= j < before.len() && before[j].0 == names@[i as int].0@;
                    assert(ascii_ci_eq(before[j].0, names@[i as int].0@));
                }
            }
            name_map_insert(variables, names[i].0.clone(), 0);
        }
        i = i + 1;
    }
    proof {
        assert(names@.take(i as int) =~= names@);
    }
}

/// The position of the first variable of `entries` whose name is
/// `unicase`-equal to `name`, if any.
pub open spec fn is_first_unicase_match(entries: Seq<(Seq<char>, i32)>, name: Seq<char>, i: int) -> bool {
    &&& 0 <= i < entries.len()
    &&& unicase_equal(entries[i].0, name)
    &&& forall|j: int| 0 <= j < i ==> !unicase_equal(#[trigger] entries[j].0, name)
}

/// Finds the player variable that a plot page edits under `name`: the
/// first whose name equals it under Unicode case folding; else the one
/// named exactly `name`, added with 0 when missing. Returns its position.
pub fn player_variable_position(variables: &mut IndexMap<String, i32>, name: &str) -> (pos: usize)
    ensures
        pos < name_map_entries(*final(variables)).len(),
        (exists|i: int| is_first_unicase_match(name_map_entries(*old(variables)), name@, i)) ==> {
            &&& is_first_unicase_match(name_map_entries(*old(variables)), name@, pos as int)
            &&& name_map_entries(*final(variables)) == name_map_entries(*old(variables))
        },
        (forall|i: int| !is_first_unicase_match(name_map_entries(*old(variables)), name@, i)) ==> {
            &&& name_map_entries(*final(variables))[pos as int].0 == name@
            &&& if entries_contain(name_map_entries(*old(variables)), name@) {
                name_map_entries(*final(variables)) == name_map_entries(*old(variables))
            } else {
                &&& name_map_entries(*final(variables)) == name_map_entries(*old(variables)).push((name@, 0i32))
                &&& pos == name_map_entries(*old(variables)).len()
            }
        },
{
    let n = name_map_len(variables);
    let ghost entries = name_map_entries(*variables);
    let mut i: usize = 0;
    while i < n
        invariant
            i <= n,
            n == entries.len(),
            entries == name_map_entries(*variables),
            *variables == *old(variables),
            forall|j: int| 0 <= j < i ==> !unicase_equal(#[trigger] entries[j].0, name@),
        decreases n - i,
    {
        let (key, _) = name_map_get_index(variables, i).unwrap();
        if unicase_eq(key.as_str(), name) {
            proof {
                assert(is_first_unicase_match(entries, name@, i as int));
            }
            return i;
        }
        i = i + 1;
    }
    proof {
        assert forall|x: int| !is_first_unicase_match(entries, name@, x) by {
            if 0 <= x < entries.len() {
                assert(!unicase_equal(entries[x].0, name@));
            }
        }
    }
    let mut k: usize = 0;
    while k < n
        invariant
            k <= n,
            n == entries.len(),
            entries == name_map_entries(*variables),
            *variables == *old(variables),
            forall|j: int| 0 <= j < k ==> #[trigger] entries[j].0 != name@,
            forall|x: int| !is_first_unicase_match(entries, name@, x),
        decreases n - k,
    {
        let (key, _) = name_map_get_index(variables, k).unwrap();
        if key.as_str().unicode_len() == name.unicode_len() && eq_exact(key.as_str(), name) {
            proof {
                assert(entries_contain(entries, name@));
            }
            return k;
        }
        k = k + 1;
    }
    proof {
        assert(!entries_contain(entries, name@));
    }
    name_map_insert(variables, name.to_owned(), 0);
    n
}

/// Whether two texts are equal, character by character.
fn eq_exact(a: &str, b: &str) -> (res: bool)
    ensures
        res == (a@ == b@),
{
    let n = a.unicode_len();
    if n != b.unicode_len() {
        return false;
    }
    let mut i: usize = 0;
    while i < n
        invariant
            i <= n,
            n == a@.len(),
            n == b@.len(),
            forall|j: int| 0 <= j < i ==> a@[j] == b@[j],
        decreases n - i,
    {
        if a.get_char(i) != b.get_char(i) {
            return false;
        }
        i = i + 1;
    }
    proof {
        assert(a@ =~= b@);
    }
    true
}

/// Makes room for the boolean plot of database id `db_id` (moved as
/// `plot_id` says) and gives its position.
pub fn bool_plot_slot(booleans: &mut Vec<bool>, db_id: usize, imported: bool) -> (slot: usize)
    requires
        plot_id(db_id, imported) < usize::MAX,
    ensures
        slot == plot_id(db_id, imported),
        slot < final(booleans)@.len(),
        final(booleans)@ == crate::raw_plot::grown(old(booleans)@, slot + 1, false),
{
    let slot = if imported { db_id + ME1_IMPORT_OFFSET } else { db_id };
    grow(booleans, slot + 1, false);
    slot
}

/// Makes room for the integer plot of database id `db_id` (moved as
/// `plot_id` says): a list grows to hold it, a map gets it with 0 when it
/// lacks it. Gives the id.
pub fn int_plot_slot(integers: &mut IntPlotType, db_id: usize, imported: bool) -> (slot: usize)
    requires
        plot_id(db_id, imported) < usize::MAX,
    ensures
        slot == plot_id(db_id, imported),
        match (*old(integers), *final(integers)) {
            (IntPlotType::Vec(a), IntPlotType::Vec(b)) => slot < b@.len() && b@ == crate::raw_plot::grown(a@, slot + 1, 0i32),
            (IntPlotType::IndexMap(a), IntPlotType::IndexMap(b)) => int_map_entries(b) == entry_or(
                int_map_entries(a),
                slot as i32,
                0i32,
            ),
            _ => false,
        },
{
    let slot = if imported { db_id + ME1_IMPORT_OFFSET } else { db_id };
    match integers {
        IntPlotType::Vec(v) => grow(v, slot + 1, 0i32),
        IntPlotType::IndexMap(m) => {
            int_entry_or_default(m, slot as i32);
        },
    }
    slot
}

} // verus!
