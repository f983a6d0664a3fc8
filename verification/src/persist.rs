//! Saving a level and reading it back.
//!
//! What is saved of a level is the list of its placed objects: the entities
//! that carry an identity marker, each with its marker, hitbox, position and
//! sprite. The list is written as RON text. The text itself is the business
//! of the `ron` crate; this module decides what goes into the list and what
//! becomes of a list that was read.

use crate::components::{Hitbox, Position, Sprite};
use crate::world::{
    sprite_view, Components, ComponentsView, Entity, EntityView, World, WorldView,
};
use vstd::prelude::*;

verus! {

/// Names the identity markers of the entities that are saved with the level.
pub struct NetworkSync;

/// One placed object as it stands in a saved level.
#[derive(Debug)]
pub struct SavedEntity {
    pub marker: u64,
    pub hitbox: Option<Hitbox>,
    pub position: Option<Position>,
    pub sprite: Option<Sprite>,
}

/// What a saved entity is, with its sprite name as a sequence of characters.
pub struct SavedView {
    pub marker: u64,
    pub hitbox: Option<Hitbox>,
    pub position: Option<Position>,
    pub sprite: Option<Seq<char>>,
}

impl View for SavedEntity {
    type V = SavedView;

    open spec fn view(&self) -> SavedView {
        SavedView {
            marker: self.marker,
            hitbox: self.hitbox,
            position: self.position,
            sprite: sprite_view(self.sprite),
        }
    }
}

impl Clone for SavedEntity {
    fn clone(&self) -> (s: Self)
        ensures
            s == *self,
    {
        let sprite = match &self.sprite {
            Some(s) => Some(s.clone()),
            None => None,
        };
        SavedEntity { marker: self.marker, hitbox: self.hitbox, position: self.position, sprite }
    }
}

/// What the entries of a list of saved entities are.
pub open spec fn saved_views(records: Seq<SavedEntity>) -> Seq<SavedView> {
    records.map_values(|r: SavedEntity| r@)
}

/// Why a level could not be saved.
#[derive(Debug)]
pub enum SaveError {
    /// The list of placed objects could not be put into text.
    Encoding(String),
}

/// Why a level could not be read.
#[derive(Debug)]
pub enum LoadError {
    /// The text is not a list of saved entities.
    Malformed(String),
    /// An entity carries the largest marker there is, above which no new
    /// marker could be handed out.
    MarkerOutOfRange,
}

/// What is saved of one row.
pub open spec fn saved_row(row: EntityView) -> SavedView {
    SavedView {
        marker: row.marker->0,
        hitbox: row.data.hitbox,
        position: row.data.position,
        sprite: row.data.sprite,
    }
}

/// Whether row `i` goes into a saved level.
pub open spec fn is_saved(w: WorldView, i: int) -> bool {
    w.visible(i) && w.get(i).marker is Some
}

/// What is saved of the first `n` rows: the marked entities among them, in
/// the order of their rows.
pub open spec fn saved_upto(w: WorldView, n: int) -> Seq<SavedView>
    decreases n,
{
    if n <= 0 {
        Seq::empty()
    } else if is_saved(w, n - 1) {
        saved_upto(w, n - 1).push(saved_row(w.get(n - 1)))
    } else {
        saved_upto(w, n - 1)
    }
}

/// What is saved of a world.
pub open spec fn saved(w: WorldView) -> Seq<SavedView> {
    saved_upto(w, w.entities.len() as int)
}

/// The components that a saved entity brings along.
pub open spec fn restored_components(record: SavedView) -> ComponentsView {
    ComponentsView {
        hitbox: record.hitbox,
        position: record.position,
        sprite: record.sprite,
        ..ComponentsView::empty()
    }
}

/// The world after one saved entity has been read into it. Where an entity
/// carries the marker of the record, that entity takes the record's hitbox,
/// position and sprite, and loses those the record does not have. Otherwise a
/// new entity is asked for under that marker.
pub open spec fn restore_one(w: WorldView, record: SavedView) -> WorldView {
    match w.marker_row(record.marker) {
        Some(i) => w.with_hitbox(i, record.hitbox).with_position(i, record.position).with_sprite(
            i,
            record.sprite,
        ),
        None => w.adopted(restored_components(record), record.marker),
    }
}

/// The world after the first `n` records have been read into it, in order.
pub open spec fn restore_upto(w: WorldView, records: Seq<SavedView>, n: int) -> WorldView
    decreases n,
{
    if n <= 0 {
        w
    } else {
        restore_one(restore_upto(w, records, n - 1), records[n - 1])
    }
}

/// The world after all records have been read into it.
pub open spec fn restore_all(w: WorldView, records: Seq<SavedView>) -> WorldView {
    restore_upto(w, records, records.len() as int)
}

/// Whether every marker in the list leaves room for a later one.
pub open spec fn loadable(records: Seq<SavedView>) -> bool {
    forall|i: int| 0 <= i < records.len() ==> (#[trigger] records[i]).marker < u64::MAX
}

/// The world without any entity.
pub open spec fn empty_world() -> WorldView {
    WorldView { entities: Seq::empty(), next_marker: 0 }
}

/// The row that a saved entity makes in a world it is read into.
pub open spec fn restored_row(record: SavedView) -> EntityView {
    EntityView {
        life: crate::world::Life::Pending,
        marker: Some(record.marker),
        data: restored_components(record),
    }
}

/// No two records of the list carry the same marker.
pub open spec fn markers_differ(records: Seq<SavedView>) -> bool {
    forall|a: int, b: int|
        0 <= a < records.len() && 0 <= b < records.len() && a != b ==> (#[trigger] records[a]).marker
            != (#[trigger] records[b]).marker
}

/// Every record of what is saved of the first `n` rows comes from one of
/// those rows.
proof fn lemma_saved_sources(w: WorldView, n: int)
    requires
        0 <= n <= w.entities.len(),
    ensures
        forall|k: int|
            0 <= k < saved_upto(w, n).len() ==> exists|r: int|
                0 <= r < n && is_saved(w, r) && (#[trigger] saved_upto(w, n)[k]) == saved_row(
                    w.entities[r],
                ),
    decreases n,
{
    if n > 0 {
        lemma_saved_sources(w, n - 1);
        let before = saved_upto(w, n - 1);
        let now = saved_upto(w, n);
        assert forall|k: int| 0 <= k < now.len() implies exists|r: int|
            0 <= r < n && is_saved(w, r) && (#[trigger] now[k]) == saved_row(w.entities[r]) by {
            if k < before.len() {
                let r = choose|r: int|
                    0 <= r < n - 1 && is_saved(w, r) && before[k] == saved_row(w.entities[r]);
                assert(0 <= r < n && is_saved(w, r) && now[k] == saved_row(w.entities[r]));
            } else {
                assert(is_saved(w, n - 1) && now[k] == saved_row(w.entities[n - 1]));
            }
        }
    }
}

/// What is saved of a world that keeps its rules can be read back: the
/// markers are all different, and none is the largest there is.
pub proof fn lemma_saved_is_loadable(w: WorldView, n: int)
    requires
        w.wf(),
        0 <= n <= w.entities.len(),
    ensures
        markers_differ(saved_upto(w, n)),
        loadable(saved_upto(w, n)),
    decreases n,
{
    if n > 0 {
        lemma_saved_is_loadable(w, n - 1);
        lemma_saved_sources(w, n - 1);
        let before = saved_upto(w, n - 1);
        let now = saved_upto(w, n);
        if is_saved(w, n - 1) {
            let last = before.len() as int;
            assert(now[last] == saved_row(w.entities[n - 1]));
            assert forall|a: int| 0 <= a < last implies (#[trigger] now[a]).marker
                != now[last].marker by {
                let r = choose|r: int|
                    0 <= r < n - 1 && is_saved(w, r) && before[a] == saved_row(w.entities[r]);
                assert(w.entities[r].marker != w.entities[n - 1].marker);
            }
            assert(markers_differ(now));
            assert(loadable(now));
        }
    }
}

/// Reading records with different markers into the empty world makes one
/// pending entity of each, in order.
proof fn lemma_restore_into_empty(records: Seq<SavedView>, n: int)
    requires
        markers_differ(records),
        loadable(records),
        0 <= n <= records.len(),
    ensures
        ({
            let back = restore_upto(empty_world(), records, n);
            &&& back.entities.len() == n
            &&& forall|k: int| 0 <= k < n ==> (#[trigger] back.entities[k]) == restored_row(records[k])
            &&& forall|k: int| 0 <= k < n ==> (#[trigger] records[k]).marker < back.next_marker
        }),
    decreases n,
{
    if n > 0 {
        lemma_restore_into_empty(records, n - 1);
        let before = restore_upto(empty_world(), records, n - 1);
        let record = records[n - 1];
        if before.has_marker(record.marker) {
            let k = choose|k: int|
                0 <= k < before.entities.len() && (#[trigger] before.entities[k]).marker == Some(
                    record.marker,
                );
            assert(before.entities[k] == restored_row(records[k]));
            assert(records[k].marker != records[n - 1].marker);
        }
        assert(before.marker_row(record.marker) is None);
    }
}

/// What is saved of a world of live entities that all carry markers holds one
/// record per row.
proof fn lemma_saved_of_restored(w: WorldView, records: Seq<SavedView>, n: int)
    requires
        0 <= n <= records.len(),
        w.entities.len() == records.len(),
        forall|k: int|
            0 <= k < records.len() ==> (#[trigger] w.entities[k]) == WorldView::settled_row(
                restored_row(records[k]),
            ),
    ensures
        saved_upto(w, n) == records.subrange(0, n),
    decreases n,
{
    if n > 0 {
        lemma_saved_of_restored(w, records, n - 1);
        assert(w.entities[n - 1] == WorldView::settled_row(restored_row(records[n - 1])));
        assert(saved_row(w.entities[n - 1]) == records[n - 1]);
        assert(saved_upto(w, n) =~= records.subrange(0, n));
    } else {
        assert(saved_upto(w, n) =~= records.subrange(0, n));
    }
}

/// Saving and reading back loses nothing. What is saved of a world that keeps
/// its rules can be read into the empty world; the world that comes of it
/// keeps the rules too, so that no two of its entities carry the same marker;
/// it has one entity for each saved one, under the marker it was saved with;
/// and once its frame is settled, what is saved of it is what was read.
pub proof fn law_save_load_round_trip(w: WorldView)
    requires
        w.wf(),
    ensures
        ({
            let records = saved(w);
            let back = restore_all(empty_world(), records);
            &&& loadable(records)
            &&& back.wf()
            &&& back.entities.len() == records.len()
            &&& forall|k: int|
                0 <= k < records.len() ==> (#[trigger] back.entities[k]).marker == Some(
                    records[k].marker,
                )
            &&& saved(back.maintained()) == records
        }),
{
    let records = saved(w);
    let n = records.len() as int;
    lemma_saved_is_loadable(w, w.entities.len() as int);
    lemma_restore_into_empty(records, n);
    let back = restore_all(empty_world(), records);
    assert(back.wf()) by {
        assert forall|a: int, b: int|
            0 <= a < back.entities.len() && 0 <= b < back.entities.len() && a != b && (
            #[trigger] back.entities[a]).marker is Some implies back.entities[a].marker != (
        #[trigger] back.entities[b]).marker by {
            assert(records[a].marker != records[b].marker);
        }
        assert forall|a: int|
            0 <= a < back.entities.len() && (#[trigger] back.entities[a]).marker is Some implies back.entities[a].marker->0
            < back.next_marker by {
            assert(records[a].marker < back.next_marker);
        }
    }
    lemma_saved_of_restored(back.maintained(), records, n);
    assert(records.subrange(0, n) =~= records);
}

/// One saved entity as plain values: the marker; the hitbox as x, y, width and
/// height; the position as x and y; the sprite name.
pub type Row = (u64, Option<(i64, i64, i64, i64)>, Option<(i64, i64)>, Option<String>);

/// What a row is, with its string as a sequence of characters.
pub type RowView = (u64, Option<(i64, i64, i64, i64)>, Option<(i64, i64)>, Option<Seq<char>>);

/// What a row is.
pub open spec fn row_view(row: Row) -> RowView {
    (
        row.0,
        row.1,
        row.2,
        match row.3 {
            Some(s) => Some(s@),
            None => None,
        },
    )
}

/// What the rows of a list are.
pub open spec fn rows_view(rows: Seq<Row>) -> Seq<RowView> {
    rows.map_values(|r: Row| row_view(r))
}

/// The row that stands for a saved entity.
pub open spec fn row_of(record: SavedView) -> RowView {
    (
        record.marker,
        match record.hitbox {
            Some(h) => Some((h.position.x, h.position.y, h.width, h.height)),
            None => None,
        },
        match record.position {
            Some(p) => Some((p.x, p.y)),
            None => None,
        },
        record.sprite,
    )
}

/// The saved entity that a row stands for.
pub open spec fn record_of(row: RowView) -> SavedView {
    SavedView {
        marker: row.0,
        hitbox: match row.1 {
            Some((x, y, width, height)) => Some(Hitbox { width, height, position: Position { x, y } }),
            None => None,
        },
        position: match row.2 {
            Some((x, y)) => Some(Position { x, y }),
            None => None,
        },
        sprite: row.3,
    }
}

/// The rows that stand for a list of saved entities.
pub open spec fn rows_of(records: Seq<SavedView>) -> Seq<RowView> {
    records.map_values(|r: SavedView| row_of(r))
}

/// The saved entities that a list of rows stands for.
pub open spec fn records_of(rows: Seq<RowView>) -> Seq<SavedView> {
    rows.map_values(|r: RowView| record_of(r))
}

/// A saved entity and the row that stands for it determine each other.
pub proof fn law_row_round_trip(record: SavedView, row: RowView)
    ensures
        record_of(row_of(record)) == record,
        row_of(record_of(row)) == row,
{
}

impl SavedEntity {
    /// The row that stands for this entity.
    pub fn to_row(&self) -> (row: Row)
        ensures
            row_view(row) == row_of(self@),
    {
        let hitbox = match self.hitbox {
            Some(h) => Some((h.position.x, h.position.y, h.width, h.height)),
            None => None,
        };
        let position = match self.position {
            Some(p) => Some((p.x, p.y)),
            None => None,
        };
        let sprite = match &self.sprite {
            Some(s) => Some(s.name.clone()),
            None => None,
        };
        (self.marker, hitbox, position, sprite)
    }

    /// The saved entity that `row` stands for.
    pub fn from_row(row: &Row) -> (record: SavedEntity)
        ensures
            record@ == record_of(row_view(*row)),
    {
        let hitbox = match row.1 {
            Some((x, y, width, height)) => Some(Hitbox { width, height, position: Position { x, y } }),
            None => None,
        };
        let position = match row.2 {
            Some((x, y)) => Some(Position { x, y }),
            None => None,
        };
        let sprite = match &row.3 {
            Some(name) => Some(Sprite { name: name.clone() }),
            None => None,
        };
        SavedEntity { marker: row.0, hitbox, position, sprite }
    }
}

/// The RON text of a list of rows, where there is one.
pub uninterp spec fn ron_text(rows: Seq<(u64, Option<(i64, i64, i64, i64)>, Option<(i64, i64)>, Option<Seq<char>>)>) -> Option<Seq<char>>;

/// The list of rows that a RON text holds, where it holds one.
pub uninterp spec fn ron_rows(text: Seq<char>) -> Option<Seq<(u64, Option<(i64, i64, i64, i64)>, Option<(i64, i64)>, Option<Seq<char>>)>>;

/// The error type of the `ron` crate.
#[verifier::external_type_specification]
#[verifier::external_body]
pub struct ExRonError(ron::Error);

/// Calls `ron::ser::to_string_pretty` on the rows, with the default layout
/// and `\n` as the line break. The text it returns depends on the rows alone;
/// nothing more is claimed of it.
#[verifier::external_body]
fn ron_encode(rows: &Vec<Row>) -> (res: Result<String, ron::Error>)
    ensures
        match res {
            Ok(text) => ron_text(rows_view(rows@)) == Some(text@),
            Err(_) => ron_text(rows_view(rows@)) is None,
        },
{
    let layout = ron::ser::PrettyConfig::new().with_new_line("\n".to_string());
    ron::ser::to_string_pretty(rows, layout)
}

/// Calls `ron::de::from_str` to read a list of rows. Whether the text holds
/// one, and which, depends on the text alone; nothing more is claimed.
#[verifier::external_body]
fn ron_decode(text: &str) -> (res: Result<Vec<Row>, ron::Error>)
    ensures
        match res {
            Ok(rows) => ron_rows(text@) == Some(rows_view(rows@)),
            Err(_) => ron_rows(text@) is None,
        },
{
    ron::de::from_str::<Vec<Row>>(text)
}

/// Puts an error of the `ron` crate into words, as its `Display` does.
#[verifier::external_body]
fn ron_error_message(error: &ron::Error) -> String {
    format!("{}", error)
}

/// Writes a level.
pub struct Serialize;

impl Serialize {
    /// The placed objects of the world, in the order of their rows.
    pub fn collect(world: &World) -> (records: Vec<SavedEntity>)
        ensures
            saved_views(records@) == saved(world@),
    {
        let mut records: Vec<SavedEntity> = Vec::new();
        let n = world.len();
        let mut i: usize = 0;
        assert(saved_views(records@) =~= saved_upto(world@, 0));
        while i < n
            invariant
                i <= n,
                n == world@.entities.len(),
                saved_views(records@) == saved_upto(world@, i as int),
            decreases n - i,
        {
            let entity = Entity { index: i };
            if world.is_visible(entity) {
                if let Some(marker) = world.marker(entity) {
                    let sprite = match world.sprite(entity) {
                        Some(s) => Some(s.clone()),
                        None => None,
                    };
                    let record = SavedEntity {
                        marker,
                        hitbox: world.hitbox(entity),
                        position: world.position(entity),
                        sprite,
                    };
                    let ghost before = records@;
                    records.push(record);
                    assert(saved_views(records@) =~= saved_views(before).push(record@));
                }
            }
            i = i + 1;
        }
        records
    }

    /// The rows that stand for a list of saved entities.
    pub fn rows(records: &Vec<SavedEntity>) -> (rows: Vec<Row>)
        ensures
            rows_view(rows@) == rows_of(saved_views(records@)),
    {
        let mut rows: Vec<Row> = Vec::new();
        let mut i: usize = 0;
        while i < records.len()
            invariant
                i <= records.len(),
                rows@.len() == i,
                forall|k: int| 0 <= k < i ==> row_view(#[trigger] rows@[k]) == row_of(records@[k]@),
            decreases records.len() - i,
        {
            let row = records[i].to_row();
            rows.push(row);
            i = i + 1;
        }
        assert(rows_view(rows@) =~= rows_of(saved_views(records@)));
        rows
    }

    /// Puts the placed objects of the world into RON text.
    pub fn run(&mut self, world: &World) -> (res: Result<String, SaveError>)
        ensures
            match res {
                Ok(text) => ron_text(rows_of(saved(world@))) == Some(text@),
                Err(e) => ron_text(rows_of(saved(world@))) is None,
            },
    {
        let records = Self::collect(world);
        let rows = Self::rows(&records);
        match ron_encode(&rows) {
            Ok(text) => Ok(text),
            Err(e) => Err(SaveError::Encoding(ron_error_message(&e))),
        }
    }
}

/// Reads a level.
pub struct Deserialize;

impl Deserialize {
    /// The saved entities that a list of rows stands for.
    pub fn records(rows: &Vec<Row>) -> (records: Vec<SavedEntity>)
        ensures
            saved_views(records@) == records_of(rows_view(rows@)),
    {
        let mut records: Vec<SavedEntity> = Vec::new();
        let mut i: usize = 0;
        while i < rows.len()
            invariant
                i <= rows.len(),
                records@.len() == i,
                forall|k: int|
                    0 <= k < i ==> (#[trigger] records@[k])@ == record_of(row_view(rows@[k])),
            decreases rows.len() - i,
        {
            let record = SavedEntity::from_row(&rows[i]);
            records.push(record);
            i = i + 1;
        }
        assert(saved_views(records@) =~= records_of(rows_view(rows@)));
        records
    }

    /// Reads saved entities into the world, in order. Nothing is read where
    /// one of them carries the largest marker there is.
    pub fn restore(world: &mut World, records: &Vec<SavedEntity>) -> (res: Result<(), LoadError>)
        requires
            old(world).wf(),
        ensures
            final(world).wf(),
            loadable(saved_views(records@)) ==> res is Ok && final(world)@ == restore_all(
                old(world)@,
                saved_views(records@),
            ),
            !loadable(saved_views(records@)) ==> res == Err::<(), LoadError>(
                LoadError::MarkerOutOfRange,
            ) && final(world)@ == old(world)@,
    {
        let n = records.len();
        let mut i: usize = 0;
        while i < n
            invariant
                i <= n,
                n == records@.len(),
                world.wf(),
                world@ == old(world)@,
                forall|k: int| 0 <= k < i ==> (#[trigger] saved_views(records@)[k]).marker < u64::MAX,
            decreases n - i,
        {
            if records[i].marker == u64::MAX {
                assert(saved_views(records@)[i as int].marker == u64::MAX);
                return Err(LoadError::MarkerOutOfRange);
            }
            i = i + 1;
        }
        assert(loadable(saved_views(records@)));
        i = 0;
        while i < n
            invariant
                i <= n,
                n == records@.len(),
                world.wf(),
                loadable(saved_views(records@)),
                world@ == restore_upto(old(world)@, saved_views(records@), i as int),
            decreases n - i,
        {
            let record = &records[i];
            assert(record@ == saved_views(records@)[i as int]);
            let sprite = match &record.sprite {
                Some(s) => Some(s.clone()),
                None => None,
            };
            match world.find_marker(record.marker) {
                Some(entity) => {
                    world.set_hitbox(entity, record.hitbox);
                    world.set_position(entity, record.position);
                    world.set_sprite(entity, sprite);
                },
                None => {
                    let mut data = Components::empty();
                    data.hitbox = record.hitbox;
                    data.position = record.position;
                    data.sprite = sprite;
                    assert(data@ == restored_components(record@));
                    world.adopt(data, record.marker);
                },
            }
            i = i + 1;
        }
        Ok(())
    }

    /// Reads a level from RON text into the world. A text that does not hold a
    /// level leaves the world as it is.
    pub fn run(&mut self, world: &mut World, text: &str) -> (res: Result<(), LoadError>)
        requires
            old(world).wf(),
        ensures
            final(world).wf(),
            match ron_rows(text@) {
                Some(rows) => if loadable(records_of(rows)) {
                    res is Ok && final(world)@ == restore_all(old(world)@, records_of(rows))
                } else {
                    res == Err::<(), LoadError>(LoadError::MarkerOutOfRange) && final(world)@
                        == old(world)@
                },
                None => res matches Err(LoadError::Malformed(_)) && final(world)@ == old(world)@,
            },
    {
        match ron_decode(text) {
            Ok(rows) => {
                let records = Self::records(&rows);
                Self::restore(world, &records)
            },
            Err(e) => Err(LoadError::Malformed(ron_error_message(&e))),
        }
    }
}

} // verus!
