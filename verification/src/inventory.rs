use vstd::prelude::*;

use crate::items::{empty_item_view, item_views, Item, ItemView};
use crate::plot_filter::{chars_of, contains_chars, contains_text, lowercased, to_lowercase};

verus! {

/// An item of the item database: its id and its manufacturer.
#[derive(Clone, Copy, Debug, PartialEq, Eq, Structural)]
pub struct DbItem {
    pub item_id: i32,
    pub manufacturer_id: i32,
}

/// An edit of an inventory list (Mass Effect 1 Legendary Edition).
pub enum Msg {
    /// The item database has been loaded.
    ItemDb(Vec<(DbItem, String)>),
    /// The item at this position becomes this database item.
    ChangeItem(usize, DbItem),
    /// The item at this position gets this level.
    ChangeItemLevel(usize, usize),
    /// The item at this position is removed.
    RemoveItem(usize),
    /// An empty item is added at the end.
    AddItem,
}

/// The inventory page, with the item database once loaded.
pub struct Me1LeInventory {
    pub item_db: Option<Vec<(DbItem, String)>>,
}

/// The number of item levels: none, then I to X.
pub const ITEM_LEVEL_COUNT: usize = 11;

/// What an edit needs: an item at the position it names, one of the item
/// levels.
pub open spec fn edit_allowed(items: Seq<Item>, msg: Msg) -> bool {
    match msg {
        Msg::ChangeItem(i, _) => i < items.len(),
        Msg::ChangeItemLevel(i, level) => i < items.len() && level < ITEM_LEVEL_COUNT,
        Msg::RemoveItem(i) => i < items.len(),
        _ => true,
    }
}

impl Me1LeInventory {
    /// A page whose item database is not loaded yet.
    pub fn create() -> (page: Me1LeInventory)
        ensures
            page.item_db is None,
    {
        Me1LeInventory { item_db: None }
    }

    /// Applies an edit to `items` and says whether to redraw.
    pub fn update(&mut self, items: &mut Vec<Item>, msg: Msg) -> (redraw: bool)
        requires
            edit_allowed(old(items)@, msg),
        ensures
            match msg {
                Msg::ItemDb(db) => redraw && final(self).item_db == Some(db) && item_views(final(items)@) == item_views(old(items)@),
                Msg::ChangeItem(i, new_item) => {
                    &&& !redraw && *final(self) == *old(self)
                    &&& item_views(final(items)@) == item_views(old(items)@).update(
                        i as int,
                        ItemView { item_id: new_item.item_id, manufacturer_id: new_item.manufacturer_id, ..old(items)@[i as int]@ },
                    )
                },
                Msg::ChangeItemLevel(i, level) => {
                    &&& !redraw && *final(self) == *old(self)
                    &&& item_views(final(items)@) == item_views(old(items)@).update(
                        i as int,
                        ItemView { item_level: level as i32, ..old(items)@[i as int]@ },
                    )
                },
                Msg::RemoveItem(i) => {
                    &&& redraw && *final(self) == *old(self)
                    &&& item_views(final(items)@) == item_views(old(items)@).remove(i as int)
                },
                Msg::AddItem => {
                    &&& redraw && *final(self) == *old(self)
                    &&& item_views(final(items)@) == item_views(old(items)@).push(empty_item_view())
                },
            },
    {
        match msg {
            Msg::ItemDb(db) => {
                self.item_db = Some(db);
                true
            },
            Msg::ChangeItem(i, new_item) => {
                let mut item = items.remove(i);
                item.item_id = new_item.item_id;
                item.manufacturer_id = new_item.manufacturer_id;
                items.insert(i, item);
                proof {
                    assert(item_views(items@) =~= item_views(old(items)@).update(
                        i as int,
                        ItemView { item_id: new_item.item_id, manufacturer_id: new_item.manufacturer_id, ..old(items)@[i as int]@ },
                    ));
                }
                false
            },
            Msg::ChangeItemLevel(i, level) => {
                let mut item = items.remove(i);
                item.item_level = level as i32;
                items.insert(i, item);
                proof {
                    assert(item_views(items@) =~= item_views(old(items)@).update(
                        i as int,
                        ItemView { item_level: level as i32, ..old(items)@[i as int]@ },
                    ));
                }
                false
            },
            Msg::RemoveItem(i) => {
                items.remove(i);
                proof {
                    assert(item_views(items@) =~= item_views(old(items)@).remove(i as int));
                }
                true
            },
            Msg::AddItem => {
                items.push(Item::empty());
                proof {
                    assert(item_views(items@) =~= item_views(old(items)@).push(empty_item_view()));
                }
                true
            },
        }
    }
}

/// An item database entry as plain values.
pub open spec fn db_item_view(e: (DbItem, String)) -> (DbItem, Seq<char>) {
    (e.0, e.1@)
}

/// Whether the item's name, lower-cased, holds `filter_lower`.
pub open spec fn name_matches(filter_lower: Seq<char>, e: (DbItem, Seq<char>)) -> bool {
    contains_text(lowercased(e.1), filter_lower)
}

/// The items of `db` whose lower-cased name holds the lower-cased filter,
/// in order.
pub fn filter_items(db: &Vec<(DbItem, String)>, filter: &str) -> (kept: Vec<(DbItem, String)>)
    ensures
        kept@.map_values(|e: (DbItem, String)| db_item_view(e)) == db@.map_values(|e: (DbItem, String)| db_item_view(e)).filter(
            |e: (DbItem, Seq<char>)| name_matches(lowercased(filter@), e),
        ),
{
    let filter_lower = chars_of(to_lowercase(filter).as_str());
    let ghost pred = |e: (DbItem, Seq<char>)| name_matches(lowercased(filter@), e);
    let ghost view = |e: (DbItem, String)| db_item_view(e);
    let mut kept: Vec<(DbItem, String)> = Vec::new();
    let mut i: usize = 0;
    while i < db.len()
        invariant
            i <= db@.len(),
            filter_lower@ == lowercased(filter@),
            pred == (|e: (DbItem, Seq<char>)| name_matches(lowercased(filter@), e)),
            view == (|e: (DbItem, String)| db_item_view(e)),
            kept@.map_values(view) == db@.take(i as int).map_values(view).filter(pred),
        decreases db@.len() - i,
    {
        let lower = to_lowercase(db[i].1.as_str());
        let matches = contains_chars(&chars_of(lower.as_str()), &filter_lower);
        let ghost before = kept@;
        proof {
            assert(db@.take(i + 1).map_values(view) =~= db@.take(i as int).map_values(view).push(db_item_view(db@[i as int])));
            db@.take(i as int).map_values(view).lemma_filter_push(db_item_view(db@[i as int]), pred);
        }
        if matches {
            kept.push((db[i].0, db[i].1.clone()));
            proof {
                assert(kept@.map_values(view) =~= before.map_values(view).push(db_item_view(db@[i as int])));
            }
        }
        i = i + 1;
    }
    proof {
        assert(db@.take(i as int) =~= db@);
    }
    kept
}

/// The height of a row of the item list, in pixels.
pub const ITEM_ROW_HEIGHT: i32 = 20;

/// The height of the item list, in pixels.
pub const ITEM_LIST_HEIGHT: i32 = 300;

/// An event of the item picker.
pub enum SelectMsg {
    /// The list was scrolled; its scroll position when it is on screen.
    Scrolled(Option<i32>),
    Open,
    ShouldClose,
    Focused,
    Blurred,
    BlurAll,
    /// The filter's text changed.
    Filter(String),
    Select(DbItem),
}

/// What the item picker asks to happen after an event.
pub enum SelectCommand {
    /// Send `SelectMsg::ShouldClose` on the next turn of the event loop.
    CheckCloseLater,
    /// Put the drop-down back at its default place.
    ResetDropDown,
    /// Measure the list again and send `SelectMsg::Scrolled`.
    Measure,
    /// Send `SelectMsg::BlurAll`.
    BlurAll,
    /// Take the focus away from the picker and its filter.
    BlurElements,
    /// Tell the owner that this item was chosen.
    Selected(DbItem),
    /// Give the focus to the filter.
    FocusFilter,
    /// Open the drop-down upward, this many pixels above its bottom.
    OpenUpward(i32),
    /// Align the drop-down on the right edge of the window.
    AlignRight,
}

/// Where the drop-down of an item picker stands on screen, once drawn.
pub struct DropDownLayout {
    pub top: i32,
    pub bottom: i32,
    pub left: i32,
    pub width: i32,
    pub viewport_height: i32,
    pub viewport_width: i32,
    /// The height of the picker itself, when it is on screen.
    pub select_height: Option<i32>,
}

/// The layout's arithmetic stays within `i32`.
pub open spec fn layout_fits(l: DropDownLayout) -> bool {
    &&& i32::MIN <= l.bottom - l.top <= i32::MAX
    &&& i32::MIN <= l.top - 70
    &&& i32::MIN <= l.viewport_height - 10
    &&& i32::MIN <= l.left + l.width <= i32::MAX
    &&& i32::MIN <= l.viewport_width - 20
}

/// Whether the drop-down opens upward: it is shorter than the room above
/// it and would end near the bottom of the window.
pub open spec fn opens_upward(l: DropDownLayout) -> bool {
    l.bottom - l.top < l.top - 70 && l.bottom > l.viewport_height - 10
}

/// Whether the drop-down is aligned right: it would end near the right
/// edge of the window.
pub open spec fn aligns_right(l: DropDownLayout) -> bool {
    l.left + l.width > l.viewport_width - 20
}

/// The name of `item` in the item database, or "Unknown item".
pub open spec fn item_name_of(db: Seq<(DbItem, String)>, item: DbItem) -> Seq<char> {
    if exists|i: int| 0 <= i < db.len() && #[trigger] db[i].0 == item {
        db[choose|i: int| 0 <= i < db.len() && #[trigger] db[i].0 == item && forall|j: int| 0 <= j < i ==> db[j].0 != item].1@
    } else {
        "Unknown item"@
    }
}

/// The name shown for `item`: its name in the database, or "Unknown item".
pub fn item_name<'a>(db: &'a Vec<(DbItem, String)>, item: DbItem) -> (name: &'a str)
    ensures
        name@ == item_name_of(db@, item),
{
    let mut i: usize = 0;
    while i < db.len()
        invariant
            i <= db@.len(),
            forall|j: int| 0 <= j < i ==> #[trigger] db@[j].0 != item,
        decreases db@.len() - i,
    {
        if db[i].0 == item {
            proof {
                let k = choose|k: int| 0 <= k < db@.len() && #[trigger] db@[k].0 == item && forall|j: int| 0 <= j < k ==> db@[j].0 != item;
                if k < i {
                } else if k > i {
                    assert(db@[i as int].0 != item);
                }
            }
            return db[i].1.as_str();
        }
        i = i + 1;
    }
    "Unknown item"
}

/// The state of the item picker.
pub struct ItemSelect {
    pub current_item: DbItem,
    pub focused: bool,
    pub opened: bool,
    pub is_opening: bool,
    pub skip: usize,
    pub take: usize,
    pub filter: String,
    pub filtered_list: Option<Vec<(DbItem, String)>>,
}

/// The number of items the picker lists.
pub open spec fn shown_len(page: ItemSelect, db: Seq<(DbItem, String)>) -> nat {
    match page.filtered_list {
        Some(l) => l@.len(),
        None => db.len(),
    }
}

impl ItemSelect {
    /// A closed picker on `current_item`.
    pub fn create(current_item: DbItem) -> (page: ItemSelect)
        ensures
            page.current_item == current_item,
            !page.focused && !page.opened && !page.is_opening,
            page.skip == 0 && page.take == 0,
            page.filter@ == Seq::<char>::empty(),
            page.filtered_list is None,
    {
        ItemSelect {
            current_item,
            focused: false,
            opened: false,
            is_opening: false,
            skip: 0,
            take: 0,
            filter: String::new(),
            filtered_list: None,
        }
    }

    /// The picker was drawn: when it has just opened, the filter gets the
    /// focus, the drop-down is placed from `layout` (upward when it fits
    /// better above, aligned right when it would overflow), and the list
    /// is measured.
    pub fn rendered(&mut self, layout: Option<DropDownLayout>) -> (commands: Vec<SelectCommand>)
        requires
            layout matches Some(l) ==> layout_fits(l),
        ensures
            *final(self) == (ItemSelect { is_opening: false, ..*old(self) }),
            !old(self).is_opening ==> commands@.len() == 0,
            old(self).is_opening ==> commands@.len() >= 2 && (commands@[0] is FocusFilter) && (commands@.last() is Measure),
            old(self).is_opening ==> match layout {
                None => commands@.len() == 2,
                Some(l) => {
                    let up = opens_upward(l) && l.select_height is Some;
                    &&& commands@.len() == 2 + (if up { 1int } else { 0 }) + (if aligns_right(l) { 1int } else { 0 })
                    &&& up ==> commands@[1] == SelectCommand::OpenUpward(l.select_height->0)
                    &&& aligns_right(l) ==> (commands@[commands@.len() - 2] is AlignRight)
                },
            },
    {
        let mut commands: Vec<SelectCommand> = Vec::new();
        if self.is_opening {
            self.is_opening = false;
            commands.push(SelectCommand::FocusFilter);
            match layout {
                Some(l) => {
                    let height = l.bottom - l.top;
                    if height < l.top - 70 && l.bottom > l.viewport_height - 10 {
                        match l.select_height {
                            Some(h) => commands.push(SelectCommand::OpenUpward(h)),
                            None => {},
                        }
                    }
                    let right = l.left + l.width;
                    if right > l.viewport_width - 20 {
                        commands.push(SelectCommand::AlignRight);
                    }
                },
                None => {},
            }
            commands.push(SelectCommand::Measure);
        }
        commands
    }

    /// The owner gave a new current item: it is taken, and an open picker
    /// is closed by taking the focus away instead of being redrawn.
    pub fn changed(&mut self, current_item: DbItem) -> (res: (bool, Vec<SelectCommand>))
        ensures
            *final(self) == (ItemSelect { current_item, ..*old(self) }),
            old(self).opened ==> !res.0 && res.1@.len() == 1 && (res.1@[0] is BlurAll),
            !old(self).opened ==> res.0 && res.1@.len() == 0,
    {
        self.current_item = current_item;
        let mut commands: Vec<SelectCommand> = Vec::new();
        if self.opened {
            commands.push(SelectCommand::BlurAll);
            (false, commands)
        } else {
            (true, commands)
        }
    }

    /// Handles an event of the picker and says whether to redraw it and
    /// what to do next.
    pub fn update(&mut self, item_db: &Vec<(DbItem, String)>, msg: SelectMsg) -> (res: (bool, Vec<SelectCommand>))
        ensures
            match msg {
                SelectMsg::Scrolled(top) => {
                    &&& res.0 && res.1@.len() == 0
                    &&& match top {
                        Some(t) => {
                            let len = shown_len(*old(self), item_db@) as usize;
                            &&& final(self).skip == (if t <= 0 { 0 } else { (t / 20) as usize })
                            &&& final(self).take == (if 17 <= (len as i32) { 17usize } else { (len as i32) as usize })
                            &&& *final(self) == ItemSelect { skip: final(self).skip, take: final(self).take, ..*old(self) }
                        },
                        None => *final(self) == *old(self),
                    }
                },
                SelectMsg::Open => {
                    &&& res.0 && res.1@.len() == 0
                    &&& *final(self) == ItemSelect { opened: true, is_opening: true, ..*old(self) }
                },
                SelectMsg::ShouldClose => if old(self).focused {
                    !res.0 && res.1@.len() == 0 && *final(self) == *old(self)
                } else {
                    &&& res.0 && res.1@.len() == 1 && res.1@[0] is ResetDropDown
                    &&& *final(self) == ItemSelect { opened: false, ..*old(self) }
                },
                SelectMsg::Focused => {
                    &&& !res.0 && res.1@.len() == 0
                    &&& *final(self) == ItemSelect { focused: true, ..*old(self) }
                },
                SelectMsg::Blurred => {
                    &&& !res.0 && res.1@.len() == 1 && res.1@[0] is CheckCloseLater
                    &&& *final(self) == ItemSelect { focused: false, ..*old(self) }
                },
                SelectMsg::BlurAll => {
                    &&& !res.0 && res.1@.len() == 1 && res.1@[0] is BlurElements
                    &&& *final(self) == *old(self)
                },
                SelectMsg::Filter(text) => {
                    &&& !res.0 && res.1@.len() == 1 && res.1@[0] is Measure
                    &&& final(self).filter@ == text@
                    &&& if text@.len() == 0 {
                        final(self).filtered_list is None
                    } else {
                        final(self).filtered_list matches Some(l) && l@.map_values(|e: (DbItem, String)| db_item_view(e))
                            == item_db@.map_values(|e: (DbItem, String)| db_item_view(e)).filter(
                            |e: (DbItem, Seq<char>)| name_matches(lowercased(text@), e),
                        )
                    }
                    &&& final(self).current_item == old(self).current_item
                    &&& final(self).focused == old(self).focused && final(self).opened == old(self).opened
                    &&& final(self).is_opening == old(self).is_opening
                    &&& final(self).skip == old(self).skip && final(self).take == old(self).take
                },
                SelectMsg::Select(item) => {
                    &&& !res.0 && res.1@.len() == 2 && res.1@[0] == SelectCommand::Selected(item) && res.1@[1] is BlurAll
                    &&& *final(self) == ItemSelect { current_item: item, ..*old(self) }
                },
            },
    {
        let mut commands: Vec<SelectCommand> = Vec::new();
        match msg {
            SelectMsg::Scrolled(top) => {
                match top {
                    Some(t) => {
                        let len = match &self.filtered_list {
                            Some(l) => l.len(),
                            None => item_db.len(),
                        };
                        let num_rows = ITEM_LIST_HEIGHT / ITEM_ROW_HEIGHT + 2;
                        let len_rows = len as i32;
                        self.skip = if t <= 0 { 0 } else { (t / ITEM_ROW_HEIGHT) as usize };
                        self.take = if num_rows <= len_rows { num_rows as usize } else { len_rows as usize };
                    },
                    None => {},
                }
                (true, commands)
            },
            SelectMsg::Open => {
                self.opened = true;
                self.is_opening = true;
                (true, commands)
            },
            SelectMsg::ShouldClose => {
                if !self.focused {
                    self.opened = false;
                    commands.push(SelectCommand::ResetDropDown);
                    (true, commands)
                } else {
                    (false, commands)
                }
            },
            SelectMsg::Focused => {
                self.focused = true;
                (false, commands)
            },
            SelectMsg::Blurred => {
                self.focused = false;
                commands.push(SelectCommand::CheckCloseLater);
                (false, commands)
            },
            SelectMsg::BlurAll => {
                commands.push(SelectCommand::BlurElements);
                (false, commands)
            },
            SelectMsg::Filter(text) => {
                if text.as_str().unicode_len() > 0 {
                    self.filtered_list = Some(filter_items(item_db, text.as_str()));
                } else {
                    self.filtered_list = None;
                }
                self.filter = text;
                commands.push(SelectCommand::Measure);
                (false, commands)
            },
            SelectMsg::Select(item) => {
                self.current_item = item;
                commands.push(SelectCommand::Selected(item));
                commands.push(SelectCommand::BlurAll);
                (false, commands)
            },
        }
    }
}

} // verus!
