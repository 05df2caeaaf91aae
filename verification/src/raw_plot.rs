use indexmap::IndexMap;
use vstd::prelude::*;

use crate::label_list::{db_for, is_label_list, keys_distinct, update_label_list};
use crate::index_map::{
    entries_contain, float_map_entries, float_map_get, float_map_insert, int_map_entries,
    int_map_get, int_map_insert,
};

verus! {

/// Integer plots: a list indexed by plot id, or a map from plot id.
pub enum IntPlotType {
    Vec(Vec<i32>),
    IndexMap(IndexMap<i32, i32>),
}

/// Floating-point plots (held as bit patterns): a list indexed by plot id,
/// or a map from plot id.
pub enum FloatPlotType {
    Vec(Vec<u32>),
    IndexMap(IndexMap<i32, u32>),
}

/// The plots shown by a raw plot page.
pub enum PlotType {
    Boolean(Vec<bool>),
    Int(IntPlotType),
    Float(FloatPlotType),
}

/// The labels known for the plots, as (plot id, label) entries.
pub struct RawPlotDb {
    pub booleans: Vec<(usize, String)>,
    pub integers: Vec<(usize, String)>,
    pub floats: Vec<(usize, String)>,
}

/// `s` made at least `len` long by appending `fill`.
pub open spec fn grown<T>(s: Seq<T>, len: int, fill: T) -> Seq<T> {
    if s.len() < len {
        s + Seq::new((len - s.len()) as nat, |_i: int| fill)
    } else {
        s
    }
}

/// Makes `v` at least `len` long by appending `fill`.
pub fn grow<T: Copy>(v: &mut Vec<T>, len: usize, fill: T)
    ensures
        final(v)@ == grown(old(v)@, len as int, fill),
{
    let ghost start = v@;
    while v.len() < len
        invariant
            start.len() <= v@.len() <= if start.len() < len { len as int } else { start.len() as int },
            v@ == start + Seq::new((v@.len() - start.len()) as nat, |_i: int| fill),
        decreases len - v@.len(),
    {
        v.push(fill);
        proof {
            assert(v@ =~= start + Seq::new((v@.len() - start.len()) as nat, |_i: int| fill));
        }
    }
    proof {
        assert(v@ =~= grown(start, len as int, fill));
    }
}

/// The entries of a map after asking for `key`'s entry and filling it with
/// `fill` when it is not there.
pub open spec fn entry_or<V>(entries: Seq<(i32, V)>, key: i32, fill: V) -> Seq<(i32, V)> {
    if entries_contain(entries, key) {
        entries
    } else {
        entries.push((key, fill))
    }
}

/// Makes sure integer plot `key` of a map is there, with 0 when it was not.
pub fn int_entry_or_default(map: &mut IndexMap<i32, i32>, key: i32) -> (added: bool)
    ensures
        int_map_entries(*final(map)) == entry_or(int_map_entries(*old(map)), key, 0),
        added == !entries_contain(int_map_entries(*old(map)), key),
{
    if int_map_get(map, key).is_none() {
        int_map_insert(map, key, 0);
        true
    } else {
        false
    }
}

/// Makes sure float plot `key` of a map is there, with 0.0 when it was not.
pub fn float_entry_or_default(map: &mut IndexMap<i32, u32>, key: i32) -> (added: bool)
    ensures
        float_map_entries(*final(map)) == entry_or(float_map_entries(*old(map)), key, 0u32),
        added == !entries_contain(float_map_entries(*old(map)), key),
{
    if float_map_get(map, key).is_none() {
        float_map_insert(map, key, 0);
        true
    } else {
        false
    }
}

/// Whether the plots are held in a list indexed by plot id.
pub open spec fn is_list(plots: PlotType) -> bool {
    match plots {
        PlotType::Boolean(_) => true,
        PlotType::Int(IntPlotType::Vec(_)) => true,
        PlotType::Float(FloatPlotType::Vec(_)) => true,
        _ => false,
    }
}

/// The plots after adding plot `id`: a list grows to hold it (the new
/// plots false or 0), a map gets it with 0 when it lacks it. Also says
/// whether something was added.
pub open spec fn plot_added(before: PlotType, after: PlotType, id: i32, added: bool) -> bool {
    match (before, after) {
        (PlotType::Boolean(a), PlotType::Boolean(b)) => {
            &&& b@ == grown(a@, id + 1, false)
            &&& added == (id >= a@.len())
        },
        (PlotType::Int(IntPlotType::Vec(a)), PlotType::Int(IntPlotType::Vec(b))) => {
            &&& b@ == grown(a@, id + 1, 0i32)
            &&& added == (id >= a@.len())
        },
        (PlotType::Float(FloatPlotType::Vec(a)), PlotType::Float(FloatPlotType::Vec(b))) => {
            &&& b@ == grown(a@, id + 1, 0u32)
            &&& added == (id >= a@.len())
        },
        (PlotType::Int(IntPlotType::IndexMap(a)), PlotType::Int(IntPlotType::IndexMap(b))) => {
            &&& int_map_entries(b) == entry_or(int_map_entries(a), id, 0i32)
            &&& added == !entries_contain(int_map_entries(a), id)
        },
        (PlotType::Float(FloatPlotType::IndexMap(a)), PlotType::Float(FloatPlotType::IndexMap(b))) => {
            &&& float_map_entries(b) == entry_or(float_map_entries(a), id, 0u32)
            &&& added == !entries_contain(float_map_entries(a), id)
        },
        _ => false,
    }
}

/// Adds plot `id` (see `plot_added`). A list cannot hold a negative id.
pub fn add_plot(plots: &mut PlotType, id: i32) -> (added: bool)
    requires
        is_list(*old(plots)) ==> id >= 0,
    ensures
        plot_added(*old(plots), *final(plots), id, added),
{
    match plots {
        PlotType::Boolean(v) => {
            let new_plot = id as usize;
            if new_plot >= v.len() {
                grow(v, new_plot + 1, false);
                true
            } else {
                false
            }
        },
        PlotType::Int(IntPlotType::Vec(v)) => {
            let new_plot = id as usize;
            if new_plot >= v.len() {
                grow(v, new_plot + 1, 0i32);
                true
            } else {
                false
            }
        },
        PlotType::Float(FloatPlotType::Vec(v)) => {
            let new_plot = id as usize;
            if new_plot >= v.len() {
                grow(v, new_plot + 1, 0u32);
                true
            } else {
                false
            }
        },
        PlotType::Int(IntPlotType::IndexMap(m)) => int_entry_or_default(m, id),
        PlotType::Float(FloatPlotType::IndexMap(m)) => float_entry_or_default(m, id),
    }
}

/// `m` is the largest key of `entries`.
pub open spec fn is_max_key(entries: Seq<(usize, String)>, m: usize) -> bool {
    &&& exists|i: int| 0 <= i < entries.len() && #[trigger] entries[i].0 == m
    &&& forall|i: int| 0 <= i < entries.len() ==> #[trigger] entries[i].0 <= m
}

/// The largest key of `entries`, if any.
pub fn max_key(entries: &Vec<(usize, String)>) -> (res: Option<usize>)
    ensures
        res is None <==> entries@.len() == 0,
        res matches Some(m) ==> is_max_key(entries@, m),
{
    if entries.len() == 0 {
        return None;
    }
    let mut m: usize = entries[0].0;
    let mut i: usize = 1;
    while i < entries.len()
        invariant
            1 <= i <= entries@.len(),
            exists|j: int| 0 <= j < i && #[trigger] entries@[j].0 == m,
            forall|j: int| 0 <= j < i ==> #[trigger] entries@[j].0 <= m,
        decreases entries@.len() - i,
    {
        if entries[i].0 > m {
            m = entries[i].0;
        }
        i = i + 1;
    }
    Some(m)
}

/// `entries` with an entry, filled with `fill`, for each of `keys` (taken
/// as `i32`) that it lacks, in the order of `keys`.
pub open spec fn entries_for_keys<V>(entries: Seq<(i32, V)>, keys: Seq<(usize, String)>, fill: V) -> Seq<(i32, V)>
    decreases keys.len(),
{
    if keys.len() == 0 {
        entries
    } else {
        entry_or(entries_for_keys(entries, keys.drop_last(), fill), keys.last().0 as i32, fill)
    }
}

/// A list long enough for the largest key of `entries` (nothing changes
/// when there are no entries).
pub open spec fn grown_for_keys<T>(s: Seq<T>, entries: Seq<(usize, String)>, fill: T) -> Seq<T> {
    if entries.len() == 0 {
        s
    } else {
        grown(s, (choose|m: usize| is_max_key(entries, m)) + 1, fill)
    }
}

/// Keys of the database can be one past.
pub open spec fn keys_below_max(entries: Seq<(usize, String)>) -> bool {
    forall|i: int| 0 <= i < entries.len() ==> #[trigger] entries[i].0 < usize::MAX
}

/// The largest key is the one that `grown_for_keys` uses.
proof fn lemma_max_key_unique(entries: Seq<(usize, String)>, m: usize)
    requires
        is_max_key(entries, m),
    ensures
        (choose|k: usize| is_max_key(entries, k)) == m,
{
    let k = choose|k: usize| is_max_key(entries, k);
    assert(is_max_key(entries, k));
    let i = choose|i: int| 0 <= i < entries.len() && #[trigger] entries[i].0 == m;
    let j = choose|j: int| 0 <= j < entries.len() && #[trigger] entries[j].0 == k;
    assert(entries[i].0 <= k);
    assert(entries[j].0 <= m);
}

/// Makes a list long enough for the largest key of `entries`.
pub fn grow_for_keys<T: Copy>(v: &mut Vec<T>, entries: &Vec<(usize, String)>, fill: T)
    requires
        keys_below_max(entries@),
    ensures
        final(v)@ == grown_for_keys(old(v)@, entries@, fill),
{
    match max_key(entries) {
        Some(m) => {
            proof {
                lemma_max_key_unique(entries@, m);
                let i = choose|i: int| 0 <= i < entries@.len() && #[trigger] entries@[i].0 == m;
                assert(entries@[i].0 < usize::MAX);
            }
            if m >= v.len() {
                grow(v, m + 1, fill);
            } else {
                proof {
                    assert(grown(v@, m + 1, fill) == v@);
                }
            }
        },
        None => {},
    }
}

/// Gives an integer map an entry, 0, for each key of `keys` it lacks.
pub fn int_entries_for_keys(map: &mut IndexMap<i32, i32>, keys: &Vec<(usize, String)>)
    ensures
        int_map_entries(*final(map)) == entries_for_keys(int_map_entries(*old(map)), keys@, 0i32),
{
    let mut i: usize = 0;
    while i < keys.len()
        invariant
            i <= keys@.len(),
            int_map_entries(*map) == entries_for_keys(int_map_entries(*old(map)), keys@.take(i as int), 0i32),
        decreases keys@.len() - i,
    {
        int_entry_or_default(map, keys[i].0 as i32);
        proof {
            assert(keys@.take(i + 1).drop_last() =~= keys@.take(i as int));
        }
        i = i + 1;
    }
    proof {
        assert(keys@.take(i as int) =~= keys@);
    }
}

/// Gives a float map an entry, 0.0, for each key of `keys` it lacks.
pub fn float_entries_for_keys(map: &mut IndexMap<i32, u32>, keys: &Vec<(usize, String)>)
    ensures
        float_map_entries(*final(map)) == entries_for_keys(float_map_entries(*old(map)), keys@, 0u32),
{
    let mut i: usize = 0;
    while i < keys.len()
        invariant
            i <= keys@.len(),
            float_map_entries(*map) == entries_for_keys(float_map_entries(*old(map)), keys@.take(i as int), 0u32),
        decreases keys@.len() - i,
    {
        float_entry_or_default(map, keys[i].0 as i32);
        proof {
            assert(keys@.take(i + 1).drop_last() =~= keys@.take(i as int));
        }
        i = i + 1;
    }
    proof {
        assert(keys@.take(i as int) =~= keys@);
    }
}

/// The plots after making room for every plot of the database: a list
/// grows to its largest id, a map gets each missing id with 0.
pub open spec fn missing_plots_added(before: PlotType, after: PlotType, db: RawPlotDb) -> bool {
    match (before, after) {
        (PlotType::Boolean(a), PlotType::Boolean(b)) => b@ == grown_for_keys(a@, db.booleans@, false),
        (PlotType::Int(IntPlotType::Vec(a)), PlotType::Int(IntPlotType::Vec(b))) => b@ == grown_for_keys(
            a@,
            db.integers@,
            0i32,
        ),
        (PlotType::Float(FloatPlotType::Vec(a)), PlotType::Float(FloatPlotType::Vec(b))) => b@ == grown_for_keys(
            a@,
            db.floats@,
            0u32,
        ),
        (PlotType::Int(IntPlotType::IndexMap(a)), PlotType::Int(IntPlotType::IndexMap(b))) => int_map_entries(b)
            == entries_for_keys(int_map_entries(a), db.integers@, 0i32),
        (PlotType::Float(FloatPlotType::IndexMap(a)), PlotType::Float(FloatPlotType::IndexMap(b))) => float_map_entries(b)
            == entries_for_keys(float_map_entries(a), db.floats@, 0u32),
        _ => false,
    }
}

/// The database ids can each be followed by one more id.
pub open spec fn db_keys_below_max(db: RawPlotDb) -> bool {
    &&& keys_below_max(db.booleans@)
    &&& keys_below_max(db.integers@)
    &&& keys_below_max(db.floats@)
}

/// Makes room for every plot of the database (see `missing_plots_added`).
pub fn add_missing_plots(plots: &mut PlotType, db: &RawPlotDb)
    requires
        db_keys_below_max(*db),
    ensures
        missing_plots_added(*old(plots), *final(plots), *db),
{
    match plots {
        PlotType::Boolean(v) => grow_for_keys(v, &db.booleans, false),
        PlotType::Int(IntPlotType::Vec(v)) => grow_for_keys(v, &db.integers, 0i32),
        PlotType::Float(FloatPlotType::Vec(v)) => grow_for_keys(v, &db.floats, 0u32),
        PlotType::Int(IntPlotType::IndexMap(m)) => int_entries_for_keys(m, &db.integers),
        PlotType::Float(FloatPlotType::IndexMap(m)) => float_entries_for_keys(m, &db.floats),
    }
}

/// Sets boolean plot `idx` to `value` when the plots are booleans and the
/// plot is there.
pub fn change_bool(plots: &mut PlotType, idx: usize, value: bool)
    ensures
        match (*old(plots), *final(plots)) {
            (PlotType::Boolean(a), PlotType::Boolean(b)) => b@ == crate::plot::flag_set(a@, idx as int, value),
            (PlotType::Int(_), PlotType::Int(_)) => *final(plots) == *old(plots),
            (PlotType::Float(_), PlotType::Float(_)) => *final(plots) == *old(plots),
            _ => false,
        },
{
    match plots {
        PlotType::Boolean(v) => crate::plot::set_plot_bool(v, idx, value),
        _ => {},
    }
}

/// The height of a row of a raw plot page, in pixels.
pub const ROW_HEIGHT: i32 = 23;

/// The rows of a raw plot page that a scroll position shows: the rows
/// above the top are skipped, and as many rows as fit (two more than the
/// whole rows of the visible height), at most `len`, are taken.
pub fn scroll_window(scroll_top: i32, offset_height: i32, len: usize) -> (window: (usize, usize))
    requires
        offset_height >= 0,
    ensures
        window.0 == (if scroll_top <= 0 { 0 } else { (scroll_top / ROW_HEIGHT) as usize }),
        window.1 == (if (offset_height / ROW_HEIGHT + 2) <= (len as i32) {
            (offset_height / ROW_HEIGHT + 2) as usize
        } else {
            (len as i32) as usize
        }),
{
    let num_rows = offset_height / ROW_HEIGHT + 2;
    let skip: usize = if scroll_top <= 0 { 0 } else { (scroll_top / ROW_HEIGHT) as usize };
    let len_rows = len as i32;
    let take: usize = if num_rows <= len_rows { num_rows as usize } else { len_rows as usize };
    (skip, take)
}

/// An event of a raw plot page.
pub enum Msg {
    /// The page was scrolled or resized; the scroll position and visible
    /// height of its list, when the list is on screen.
    Scrolled(Option<(i32, i32)>),
    /// A boolean plot was ticked or unticked.
    ChangeBool(usize, bool),
    /// The filter was typed in; the new text, when it came from the
    /// filter's input.
    Filter(Option<String>),
    /// The pause after a filter change is over.
    Filtered,
    /// The plot whose id is in the add field is to be added.
    Add,
}

/// What a raw plot page asks to happen after an event.
pub enum Command {
    /// Measure the list again and send `Msg::Scrolled`.
    Measure,
    /// Wait a moment, then send `Msg::Filtered`.
    WaitThenFiltered,
    /// Send `Msg::Filter` with this text again.
    Refilter(Option<String>),
    /// Scroll the list back to its top.
    ScrollToTop,
}

/// The state of a raw plot page.
pub struct RawPlot {
    pub skip: usize,
    pub take: usize,
    pub label_list: Option<Vec<(usize, Option<String>)>>,
    pub is_filtering: bool,
    pub pending_filter: Option<Option<String>>,
}

/// The number of plots listed, none before the list is built.
pub open spec fn listed_len(list: Option<Vec<(usize, Option<String>)>>) -> nat {
    match list {
        Some(l) => l@.len(),
        None => 0,
    }
}

/// What a raw plot page needs of its database: distinct ids, each with a
/// next id.
pub open spec fn db_fits(plots: PlotType, db: RawPlotDb) -> bool {
    &&& db_keys_below_max(db)
    &&& keys_distinct(db_for(plots, db))
}

/// The page's list is the label list of the plots under the filter.
pub open spec fn list_is_current(page: RawPlot, plots: PlotType, db: RawPlotDb, filter: Seq<char>) -> bool {
    page.label_list matches Some(l) && is_label_list(l@, plots, db_for(plots, db), filter)
}

impl RawPlot {
    /// A new page: the database's plots are made room for, the list is
    /// built, and a measure is asked.
    pub fn create(plots: &mut PlotType, db: &RawPlotDb, filter: &str) -> (res: (RawPlot, Vec<Command>))
        requires
            db_fits(*old(plots), *db),
        ensures
            missing_plots_added(*old(plots), *final(plots), *db),
            list_is_current(res.0, *final(plots), *db, filter@),
            res.0.skip == 0 && res.0.take == 0,
            !res.0.is_filtering && res.0.pending_filter is None,
            res.1@.len() == 1 && res.1@[0] is Measure,
    {
        add_missing_plots(plots, db);
        proof {
            lemma_missing_plots_keep_kind(*old(plots), *plots, *db);
        }
        let list = update_label_list(plots, db, filter);
        let page = RawPlot { skip: 0, take: 0, label_list: Some(list), is_filtering: false, pending_filter: None };
        let mut commands: Vec<Command> = Vec::new();
        commands.push(Command::Measure);
        (page, commands)
    }

    /// The props changed: the database's plots are made room for and the
    /// list is built again; a list on screen is scrolled back to its top
    /// (or measured when already there) and no redraw is asked, else a
    /// redraw is asked.
    pub fn changed(&mut self, plots: &mut PlotType, db: &RawPlotDb, filter: &str, scroll_top: Option<i32>) -> (res: (bool, Vec<Command>))
        requires
            db_fits(*old(plots), *db),
        ensures
            missing_plots_added(*old(plots), *final(plots), *db),
            list_is_current(*final(self), *final(plots), *db, filter@),
            final(self).skip == old(self).skip && final(self).take == old(self).take,
            final(self).is_filtering == old(self).is_filtering,
            final(self).pending_filter == old(self).pending_filter,
            match scroll_top {
                Some(top) => !res.0 && res.1@.len() == 1 && (if top != 0 { res.1@[0] is ScrollToTop } else { res.1@[0] is Measure }),
                None => res.0 && res.1@.len() == 0,
            },
    {
        add_missing_plots(plots, db);
        proof {
            lemma_missing_plots_keep_kind(*old(plots), *plots, *db);
        }
        self.label_list = Some(update_label_list(plots, db, filter));
        let mut commands: Vec<Command> = Vec::new();
        match scroll_top {
            Some(top) => {
                if top != 0 {
                    commands.push(Command::ScrollToTop);
                } else {
                    commands.push(Command::Measure);
                }
                (false, commands)
            },
            None => (true, commands),
        }
    }

    /// Handles an event of the page and says whether to redraw it and what
    /// to do next.
    pub fn update(
        &mut self,
        plots: &mut PlotType,
        db: &RawPlotDb,
        filter: &mut String,
        add_id: i32,
        msg: Msg,
    ) -> (res: (bool, Vec<Command>))
        requires
            keys_distinct(db_for(*old(plots), *db)),
            msg is Add && is_list(*old(plots)) ==> add_id >= 0,
            msg matches Msg::Scrolled(Some(m)) ==> m.1 >= 0,
        ensures
            match msg {
                Msg::Scrolled(measure) => {
                    &&& res.0 && res.1@.len() == 0
                    &&& *final(plots) == *old(plots) && final(filter)@ == old(filter)@
                    &&& final(self).label_list == old(self).label_list
                    &&& final(self).is_filtering == old(self).is_filtering
                    &&& final(self).pending_filter == old(self).pending_filter
                    &&& match measure {
                        Some((top, height)) => {
                            let window = scroll_window_spec(top, height, listed_len(old(self).label_list) as usize);
                            final(self).skip == window.0 && final(self).take == window.1
                        },
                        None => final(self).skip == old(self).skip && final(self).take == old(self).take,
                    }
                },
                Msg::ChangeBool(idx, value) => {
                    &&& !res.0 && res.1@.len() == 0
                    &&& match (*old(plots), *final(plots)) {
                        (PlotType::Boolean(a), PlotType::Boolean(b)) => b@ == crate::plot::flag_set(a@, idx as int, value),
                        _ => *final(plots) == *old(plots),
                    }
                    &&& final(filter)@ == old(filter)@
                    &&& *final(self) == *old(self)
                },
                Msg::Filter(text) => {
                    &&& !res.0
                    &&& *final(plots) == *old(plots)
                    &&& final(self).skip == old(self).skip && final(self).take == old(self).take
                    &&& if old(self).is_filtering {
                        &&& final(self).pending_filter == Some(text)
                        &&& final(self).is_filtering
                        &&& final(self).label_list == old(self).label_list
                        &&& final(filter)@ == old(filter)@
                        &&& res.1@.len() == 0
                    } else {
                        match text {
                            Some(t) => {
                                &&& final(self).is_filtering
                                &&& final(filter)@ == t@
                                &&& list_is_current(*final(self), *final(plots), *db, t@)
                                &&& final(self).pending_filter == old(self).pending_filter
                                &&& res.1@.len() == 2 && res.1@[0] is WaitThenFiltered && res.1@[1] is Measure
                            },
                            None => {
                                &&& *final(self) == *old(self)
                                &&& final(filter)@ == old(filter)@
                                &&& res.1@.len() == 0
                            },
                        }
                    }
                },
                Msg::Filtered => {
                    &&& !res.0
                    &&& *final(plots) == *old(plots) && final(filter)@ == old(filter)@
                    &&& !final(self).is_filtering
                    &&& final(self).pending_filter is None
                    &&& final(self).label_list == old(self).label_list
                    &&& final(self).skip == old(self).skip && final(self).take == old(self).take
                    &&& match old(self).pending_filter {
                        Some(text) => res.1@.len() == 1 && res.1@[0] == Command::Refilter(text),
                        None => res.1@.len() == 0,
                    }
                },
                Msg::Add => {
                    &&& !res.0
                    &&& exists|added: bool| {
                        &&& #[trigger] plot_added(*old(plots), *final(plots), add_id, added)
                        &&& if added {
                            &&& list_is_current(*final(self), *final(plots), *db, old(filter)@)
                            &&& res.1@.len() == 1 && res.1@[0] is Measure
                        } else {
                            &&& final(self).label_list == old(self).label_list
                            &&& res.1@.len() == 0
                        }
                    }
                    &&& final(filter)@ == old(filter)@
                    &&& final(self).skip == old(self).skip && final(self).take == old(self).take
                    &&& final(self).is_filtering == old(self).is_filtering
                    &&& final(self).pending_filter == old(self).pending_filter
                },
            },
    {
        let mut commands: Vec<Command> = Vec::new();
        match msg {
            Msg::Scrolled(measure) => {
                match measure {
                    Some((top, height)) => {
                        let len = match &self.label_list {
                            Some(list) => list.len(),
                            None => 0,
                        };
                        let (skip, take) = scroll_window(top, height, len);
                        self.skip = skip;
                        self.take = take;
                    },
                    None => {},
                }
                (true, commands)
            },
            Msg::ChangeBool(idx, value) => {
                change_bool(plots, idx, value);
                (false, commands)
            },
            Msg::Filter(text) => {
                if !self.is_filtering {
                    match text {
                        Some(t) => {
                            self.is_filtering = true;
                            *filter = t;
                            commands.push(Command::WaitThenFiltered);
                            self.label_list = Some(update_label_list(plots, db, filter.as_str()));
                            commands.push(Command::Measure);
                        },
                        None => {},
                    }
                } else {
                    self.pending_filter = Some(text);
                }
                (false, commands)
            },
            Msg::Filtered => {
                self.is_filtering = false;
                let pending = self.pending_filter.take();
                match pending {
                    Some(text) => commands.push(Command::Refilter(text)),
                    None => {},
                }
                (false, commands)
            },
            Msg::Add => {
                let added = add_plot(plots, add_id);
                proof {
                    lemma_added_keeps_kind(*old(plots), *plots, add_id, added, *db);
                }
                if added {
                    self.label_list = Some(update_label_list(plots, db, filter.as_str()));
                    commands.push(Command::Measure);
                }
                (false, commands)
            },
        }
    }
}

/// The rows a scroll position shows (see `scroll_window`).
pub open spec fn scroll_window_spec(scroll_top: i32, offset_height: i32, len: usize) -> (usize, usize) {
    (
        if scroll_top <= 0 { 0 } else { (scroll_top / ROW_HEIGHT) as usize },
        if (offset_height / ROW_HEIGHT + 2) <= (len as i32) {
            (offset_height / ROW_HEIGHT + 2) as usize
        } else {
            (len as i32) as usize
        },
    )
}

/// Making room for the database's plots keeps the kind of plots.
pub proof fn lemma_missing_plots_keep_kind(before: PlotType, after: PlotType, db: RawPlotDb)
    requires
        missing_plots_added(before, after, db),
    ensures
        db_for(after, db) == db_for(before, db),
{
}

/// Adding a plot keeps the kind of plots.
pub proof fn lemma_added_keeps_kind(before: PlotType, after: PlotType, id: i32, added: bool, db: RawPlotDb)
    requires
        plot_added(before, after, id, added),
    ensures
        db_for(after, db) == db_for(before, db),
{
}


/// A list after a plot id was added to it: it has an entry at `id`, is
/// exactly long enough for it (or as long as before), keeps every earlier
/// entry, and the new entries are `fill`.
pub open spec fn list_holds_added<T>(before: Seq<T>, after: Seq<T>, id: int, fill: T) -> bool {
    &&& id < after.len()
    &&& after.len() == if id < before.len() { before.len() as int } else { id + 1 }
    &&& forall|i: int| 0 <= i < before.len() ==> after[i] == before[i]
    &&& forall|i: int| before.len() <= i < after.len() ==> after[i] == fill
}

/// Growing a list to a length keeps its entries and fills the rest.
proof fn lemma_grown_holds<T>(s: Seq<T>, id: int, fill: T)
    requires
        id >= 0,
    ensures
        list_holds_added(s, grown(s, id + 1, fill), id, fill),
{
}

/// Law: after adding plot `id`, the plots hold `id`; a list keeps its
/// entries and gains entries up to `id`, false or 0; a map keeps its
/// entries in their order and gains `id` with 0 when it lacked it. The
/// result says whether the plot was new.
pub proof fn law_added_plot_is_held(a: PlotType, b: PlotType, id: i32, added: bool)
    requires
        plot_added(a, b, id, added),
        is_list(a) ==> id >= 0,
    ensures
        match (a, b) {
            (PlotType::Boolean(x), PlotType::Boolean(y)) => {
                &&& list_holds_added(x@, y@, id as int, false)
                &&& added == (id >= x@.len())
            },
            (PlotType::Int(IntPlotType::Vec(x)), PlotType::Int(IntPlotType::Vec(y))) => {
                &&& list_holds_added(x@, y@, id as int, 0i32)
                &&& added == (id >= x@.len())
            },
            (PlotType::Float(FloatPlotType::Vec(x)), PlotType::Float(FloatPlotType::Vec(y))) => {
                &&& list_holds_added(x@, y@, id as int, 0u32)
                &&& added == (id >= x@.len())
            },
            (PlotType::Int(IntPlotType::IndexMap(x)), PlotType::Int(IntPlotType::IndexMap(y))) => {
                &&& entries_contain(int_map_entries(y), id)
                &&& added == !entries_contain(int_map_entries(x), id)
                &&& int_map_entries(y).len() == int_map_entries(x).len() + if added { 1int } else { 0int }
                &&& int_map_entries(y).take(int_map_entries(x).len() as int) == int_map_entries(x)
                &&& added ==> int_map_entries(y).last() == (id, 0i32)
            },
            (PlotType::Float(FloatPlotType::IndexMap(x)), PlotType::Float(FloatPlotType::IndexMap(y))) => {
                &&& entries_contain(float_map_entries(y), id)
                &&& added == !entries_contain(float_map_entries(x), id)
                &&& float_map_entries(y).len() == float_map_entries(x).len() + if added { 1int } else { 0int }
                &&& float_map_entries(y).take(float_map_entries(x).len() as int) == float_map_entries(x)
                &&& added ==> float_map_entries(y).last() == (id, 0u32)
            },
            _ => false,
        },
{
    match (a, b) {
        (PlotType::Boolean(x), PlotType::Boolean(y)) => {
            lemma_grown_holds(x@, id as int, false);
        },
        (PlotType::Int(IntPlotType::Vec(x)), PlotType::Int(IntPlotType::Vec(y))) => {
            lemma_grown_holds(x@, id as int, 0i32);
        },
        (PlotType::Float(FloatPlotType::Vec(x)), PlotType::Float(FloatPlotType::Vec(y))) => {
            lemma_grown_holds(x@, id as int, 0u32);
        },
        (PlotType::Int(IntPlotType::IndexMap(x)), PlotType::Int(IntPlotType::IndexMap(y))) => {
            let e = int_map_entries(x);
            lemma_entry_or_contains(e, id, 0i32);
            assert(entry_or(e, id, 0i32).take(e.len() as int) =~= e);
        },
        (PlotType::Float(FloatPlotType::IndexMap(x)), PlotType::Float(FloatPlotType::IndexMap(y))) => {
            let e = float_map_entries(x);
            lemma_entry_or_contains(e, id, 0u32);
            assert(entry_or(e, id, 0u32).take(e.len() as int) =~= e);
        },
        _ => {},
    }
}

/// The two plots hold the same values.
pub open spec fn same_plots(a: PlotType, b: PlotType) -> bool {
    match (a, b) {
        (PlotType::Boolean(x), PlotType::Boolean(y)) => x@ == y@,
        (PlotType::Int(IntPlotType::Vec(x)), PlotType::Int(IntPlotType::Vec(y))) => x@ == y@,
        (PlotType::Float(FloatPlotType::Vec(x)), PlotType::Float(FloatPlotType::Vec(y))) => x@ == y@,
        (PlotType::Int(IntPlotType::IndexMap(x)), PlotType::Int(IntPlotType::IndexMap(y))) => int_map_entries(x) == int_map_entries(y),
        (PlotType::Float(FloatPlotType::IndexMap(x)), PlotType::Float(FloatPlotType::IndexMap(y))) => float_map_entries(x) == float_map_entries(y),
        _ => false,
    }
}

/// Law: adding a plot a second time adds nothing and changes nothing.
pub proof fn law_add_plot_twice(a: PlotType, b: PlotType, c: PlotType, id: i32, first: bool, second: bool)
    requires
        plot_added(a, b, id, first),
        plot_added(b, c, id, second),
    ensures
        !second,
        same_plots(b, c),
{
    match (a, b, c) {
        (PlotType::Int(IntPlotType::IndexMap(x)), PlotType::Int(IntPlotType::IndexMap(y)), PlotType::Int(IntPlotType::IndexMap(z))) => {
            let e = int_map_entries(x);
            if !entries_contain(e, id) {
                assert(e.push((id, 0i32))[e.len() as int].0 == id);
            }
        },
        (PlotType::Float(FloatPlotType::IndexMap(x)), PlotType::Float(FloatPlotType::IndexMap(y)), PlotType::Float(FloatPlotType::IndexMap(z))) => {
            let e = float_map_entries(x);
            if !entries_contain(e, id) {
                assert(e.push((id, 0u32))[e.len() as int].0 == id);
            }
        },
        _ => {},
    }
}
/// After giving an entry to each key, each key has one; keys already
/// there stay.
proof fn lemma_entries_for_keys_contain<V>(e: Seq<(i32, V)>, keys: Seq<(usize, String)>, fill: V)
    ensures
        forall|i: int| 0 <= i < keys.len() ==> entries_contain(entries_for_keys(e, keys, fill), #[trigger] keys[i].0 as i32),
        forall|k: i32| entries_contain(e, k) ==> #[trigger] entries_contain(entries_for_keys(e, keys, fill), k),
    decreases keys.len(),
{
    if keys.len() > 0 {
        let prev = keys.drop_last();
        lemma_entries_for_keys_contain(e, prev, fill);
        let before = entries_for_keys(e, prev, fill);
        let key = keys.last().0 as i32;
        lemma_entry_or_contains(before, key, fill);
        assert forall|i: int| 0 <= i < keys.len() implies entries_contain(entries_for_keys(e, keys, fill), #[trigger] keys[i].0 as i32) by {
            if i < keys.len() - 1 {
                assert(keys[i] == prev[i]);
            }
        }
    }
}

/// Asking for a key's entry keeps every key and has the asked one.
proof fn lemma_entry_or_contains<V>(e: Seq<(i32, V)>, key: i32, fill: V)
    ensures
        entries_contain(entry_or(e, key, fill), key),
        forall|k: i32| entries_contain(e, k) ==> #[trigger] entries_contain(entry_or(e, key, fill), k),
{
    if !entries_contain(e, key) {
        let after = e.push((key, fill));
        assert(after[e.len() as int].0 == key);
        assert forall|k: i32| entries_contain(e, k) implies #[trigger] entries_contain(after, k) by {
            let i = choose|i: int| 0 <= i < e.len() && e[i].0 == k;
            assert(after[i] == e[i]);
        }
    }
}

/// Giving an entry to keys that all have one changes nothing.
proof fn lemma_entries_for_keys_noop<V>(e: Seq<(i32, V)>, keys: Seq<(usize, String)>, fill: V)
    requires
        forall|i: int| 0 <= i < keys.len() ==> entries_contain(e, #[trigger] keys[i].0 as i32),
    ensures
        entries_for_keys(e, keys, fill) == e,
    decreases keys.len(),
{
    if keys.len() > 0 {
        let prev = keys.drop_last();
        assert forall|i: int| 0 <= i < prev.len() implies entries_contain(e, #[trigger] prev[i].0 as i32) by {
            assert(prev[i] == keys[i]);
        }
        lemma_entries_for_keys_noop(e, prev, fill);
        assert(entries_contain(e, keys[keys.len() - 1].0 as i32));
    }
}

/// Law: making room for the database's plots a second time changes
/// nothing.
pub proof fn law_missing_plots_idempotent(a: PlotType, b: PlotType, c: PlotType, db: RawPlotDb)
    requires
        missing_plots_added(a, b, db),
        missing_plots_added(b, c, db),
    ensures
        same_plots(b, c),
{
    match (a, b, c) {
        (PlotType::Int(IntPlotType::IndexMap(x)), PlotType::Int(IntPlotType::IndexMap(y)), PlotType::Int(IntPlotType::IndexMap(z))) => {
            lemma_entries_for_keys_contain(int_map_entries(x), db.integers@, 0i32);
            lemma_entries_for_keys_noop(int_map_entries(y), db.integers@, 0i32);
        },
        (PlotType::Float(FloatPlotType::IndexMap(x)), PlotType::Float(FloatPlotType::IndexMap(y)), PlotType::Float(FloatPlotType::IndexMap(z))) => {
            lemma_entries_for_keys_contain(float_map_entries(x), db.floats@, 0u32);
            lemma_entries_for_keys_noop(float_map_entries(y), db.floats@, 0u32);
        },
        _ => {},
    }
}

} // verus!
