//! The plain data records that entities are made of.
//!
//! All numbers are fixed-point thousandths (see [`crate::fixed`]).

use crate::fixed::{fx_add, fx_add_spec, fx_div, fx_div_spec, fx_mul, fx_mul_spec, fx_neg, fx_neg_spec, fx_sub, fx_sub_spec, snap_floor, snap_round, GRID};
use vstd::prelude::*;

verus! {

/// A point of the world, or a 2D vector, depending on where it is used.
#[derive(Debug, Default, Clone, Copy, PartialEq, Eq, Structural)]
pub struct Position {
    pub x: i64,
    pub y: i64,
}

impl Position {
    /// Component-wise sum.
    pub open spec fn add_spec(self, other: Position) -> Position {
        Position { x: fx_add_spec(self.x, other.x), y: fx_add_spec(self.y, other.y) }
    }

    /// Component-wise difference.
    pub open spec fn sub_spec(self, other: Position) -> Position {
        Position { x: fx_sub_spec(self.x, other.x), y: fx_sub_spec(self.y, other.y) }
    }

    /// Component-wise fixed-point product.
    pub open spec fn mul_spec(self, other: Position) -> Position {
        Position { x: fx_mul_spec(self.x, other.x), y: fx_mul_spec(self.y, other.y) }
    }

    /// Component-wise fixed-point ratio.
    pub open spec fn div_spec(self, other: Position) -> Position {
        Position { x: fx_div_spec(self.x, other.x), y: fx_div_spec(self.y, other.y) }
    }

    /// The opposite vector.
    pub open spec fn neg_spec(self) -> Position {
        Position { x: fx_neg_spec(self.x), y: fx_neg_spec(self.y) }
    }

    /// The vector with both components equal to `value`.
    pub open spec fn splat(value: i64) -> Position {
        Position { x: value, y: value }
    }

    /// The corner of the grid tile that holds the point.
    pub open spec fn snap_floor_spec(self) -> Position {
        Position { x: crate::fixed::snap_floor_spec(self.x), y: crate::fixed::snap_floor_spec(self.y) }
    }

    /// The grid corner nearest to the point.
    pub open spec fn snap_round_spec(self) -> Position {
        Position { x: crate::fixed::snap_round_spec(self.x), y: crate::fixed::snap_round_spec(self.y) }
    }

    /// The point `(x, y)`.
    pub fn new(x: i64, y: i64) -> (p: Self)
        ensures
            p == (Position { x, y }),
    {
        Position { x, y }
    }

    /// The origin.
    pub fn zero() -> (p: Self)
        ensures
            p == (Position { x: 0, y: 0 }),
    {
        Position::new(0, 0)
    }

    /// The corner of the grid tile that holds this point.
    pub fn snap_floor(self) -> (p: Position)
        ensures
            p == self.snap_floor_spec(),
    {
        Position { x: snap_floor(self.x), y: snap_floor(self.y) }
    }

    /// The grid corner nearest to this point.
    pub fn snap_round(self) -> (p: Position)
        ensures
            p == self.snap_round_spec(),
    {
        Position { x: snap_round(self.x), y: snap_round(self.y) }
    }
}

/// `a + b` is the component-wise sum.
impl core::ops::Add for Position {
    type Output = Position;

    fn add(self, other: Position) -> (p: Position) {
        Position { x: fx_add(self.x, other.x), y: fx_add(self.y, other.y) }
    }
}

impl vstd::std_specs::ops::AddSpecImpl for Position {
    open spec fn obeys_add_spec() -> bool {
        true
    }

    open spec fn add_req(self, other: Position) -> bool {
        true
    }

    open spec fn add_spec(self, other: Position) -> Position {
        Position::add_spec(self, other)
    }
}

/// `a + v` adds `v` to both components.
impl core::ops::Add<i64> for Position {
    type Output = Position;

    fn add(self, value: i64) -> (p: Position) {
        Position { x: fx_add(self.x, value), y: fx_add(self.y, value) }
    }
}

impl vstd::std_specs::ops::AddSpecImpl<i64> for Position {
    open spec fn obeys_add_spec() -> bool {
        true
    }

    open spec fn add_req(self, value: i64) -> bool {
        true
    }

    open spec fn add_spec(self, value: i64) -> Position {
        Position::add_spec(self, Position::splat(value))
    }
}

/// `a - b` is the component-wise difference.
impl core::ops::Sub for Position {
    type Output = Position;

    fn sub(self, other: Position) -> (p: Position) {
        Position { x: fx_sub(self.x, other.x), y: fx_sub(self.y, other.y) }
    }
}

impl vstd::std_specs::ops::SubSpecImpl for Position {
    open spec fn obeys_sub_spec() -> bool {
        true
    }

    open spec fn sub_req(self, other: Position) -> bool {
        true
    }

    open spec fn sub_spec(self, other: Position) -> Position {
        Position::sub_spec(self, other)
    }
}

/// `a - v` subtracts `v` from both components.
impl core::ops::Sub<i64> for Position {
    type Output = Position;

    fn sub(self, value: i64) -> (p: Position) {
        Position { x: fx_sub(self.x, value), y: fx_sub(self.y, value) }
    }
}

impl vstd::std_specs::ops::SubSpecImpl<i64> for Position {
    open spec fn obeys_sub_spec() -> bool {
        true
    }

    open spec fn sub_req(self, value: i64) -> bool {
        true
    }

    open spec fn sub_spec(self, value: i64) -> Position {
        Position::sub_spec(self, Position::splat(value))
    }
}

/// `a * b` is the component-wise fixed-point product.
impl core::ops::Mul for Position {
    type Output = Position;

    fn mul(self, other: Position) -> (p: Position) {
        Position { x: fx_mul(self.x, other.x), y: fx_mul(self.y, other.y) }
    }
}

impl vstd::std_specs::ops::MulSpecImpl for Position {
    open spec fn obeys_mul_spec() -> bool {
        true
    }

    open spec fn mul_req(self, other: Position) -> bool {
        true
    }

    open spec fn mul_spec(self, other: Position) -> Position {
        Position::mul_spec(self, other)
    }
}

/// `a * v` scales both components by the fixed-point number `v`.
impl core::ops::Mul<i64> for Position {
    type Output = Position;

    fn mul(self, value: i64) -> (p: Position) {
        Position { x: fx_mul(self.x, value), y: fx_mul(self.y, value) }
    }
}

impl vstd::std_specs::ops::MulSpecImpl<i64> for Position {
    open spec fn obeys_mul_spec() -> bool {
        true
    }

    open spec fn mul_req(self, value: i64) -> bool {
        true
    }

    open spec fn mul_spec(self, value: i64) -> Position {
        Position::mul_spec(self, Position::splat(value))
    }
}

/// `a / b` is the component-wise fixed-point ratio.
impl core::ops::Div for Position {
    type Output = Position;

    fn div(self, other: Position) -> (p: Position) {
        Position { x: fx_div(self.x, other.x), y: fx_div(self.y, other.y) }
    }
}

impl vstd::std_specs::ops::DivSpecImpl for Position {
    open spec fn obeys_div_spec() -> bool {
        true
    }

    open spec fn div_req(self, other: Position) -> bool {
        true
    }

    open spec fn div_spec(self, other: Position) -> Position {
        Position::div_spec(self, other)
    }
}

/// `a / v` divides both components by the fixed-point number `v`.
impl core::ops::Div<i64> for Position {
    type Output = Position;

    fn div(self, value: i64) -> (p: Position) {
        Position { x: fx_div(self.x, value), y: fx_div(self.y, value) }
    }
}

impl vstd::std_specs::ops::DivSpecImpl<i64> for Position {
    open spec fn obeys_div_spec() -> bool {
        true
    }

    open spec fn div_req(self, value: i64) -> bool {
        true
    }

    open spec fn div_spec(self, value: i64) -> Position {
        Position::div_spec(self, Position::splat(value))
    }
}

/// `-a` is the opposite vector.
impl core::ops::Neg for Position {
    type Output = Position;

    fn neg(self) -> (p: Position) {
        Position { x: fx_neg(self.x), y: fx_neg(self.y) }
    }
}

impl vstd::std_specs::ops::NegSpecImpl for Position {
    open spec fn obeys_neg_spec() -> bool {
        true
    }

    open spec fn neg_req(self) -> bool {
        true
    }

    open spec fn neg_spec(self) -> Position {
        Position::neg_spec(self)
    }
}

/// `a += b` adds `b` to `a`.
impl core::ops::AddAssign for Position {
    fn add_assign(&mut self, other: Position)
        ensures
            *final(self) == Position::add_spec(*old(self), other),
    {
        self.x = fx_add(self.x, other.x);
        self.y = fx_add(self.y, other.y);
    }
}

/// `a += v` adds `v` to both components of `a`.
impl core::ops::AddAssign<i64> for Position {
    fn add_assign(&mut self, value: i64)
        ensures
            *final(self) == Position::add_spec(*old(self), Position::splat(value)),
    {
        self.x = fx_add(self.x, value);
        self.y = fx_add(self.y, value);
    }
}

/// `a -= b` subtracts `b` from `a`.
impl core::ops::SubAssign for Position {
    fn sub_assign(&mut self, other: Position)
        ensures
            *final(self) == Position::sub_spec(*old(self), other),
    {
        self.x = fx_sub(self.x, other.x);
        self.y = fx_sub(self.y, other.y);
    }
}

/// `a -= v` subtracts `v` from both components of `a`.
impl core::ops::SubAssign<i64> for Position {
    fn sub_assign(&mut self, value: i64)
        ensures
            *final(self) == Position::sub_spec(*old(self), Position::splat(value)),
    {
        self.x = fx_sub(self.x, value);
        self.y = fx_sub(self.y, value);
    }
}

/// `a *= b` multiplies `a` by `b`, component by component.
impl core::ops::MulAssign for Position {
    fn mul_assign(&mut self, other: Position)
        ensures
            *final(self) == Position::mul_spec(*old(self), other),
    {
        self.x = fx_mul(self.x, other.x);
        self.y = fx_mul(self.y, other.y);
    }
}

/// `a *= v` scales `a` by the fixed-point number `v`.
impl core::ops::MulAssign<i64> for Position {
    fn mul_assign(&mut self, value: i64)
        ensures
            *final(self) == Position::mul_spec(*old(self), Position::splat(value)),
    {
        self.x = fx_mul(self.x, value);
        self.y = fx_mul(self.y, value);
    }
}

/// `a /= b` divides `a` by `b`, component by component.
impl core::ops::DivAssign for Position {
    fn div_assign(&mut self, other: Position)
        ensures
            *final(self) == Position::div_spec(*old(self), other),
    {
        self.x = fx_div(self.x, other.x);
        self.y = fx_div(self.y, other.y);
    }
}

/// `a /= v` divides `a` by the fixed-point number `v`.
impl core::ops::DivAssign<i64> for Position {
    fn div_assign(&mut self, value: i64)
        ensures
            *final(self) == Position::div_spec(*old(self), Position::splat(value)),
    {
        self.x = fx_div(self.x, value);
        self.y = fx_div(self.y, value);
    }
}

/// An axis-aligned rectangle given by its top-left corner and its size.
#[derive(Debug, Clone, Copy, PartialEq, Eq, Structural)]
pub struct Rectangle {
    pub x: i64,
    pub y: i64,
    pub width: i64,
    pub height: i64,
}

impl Rectangle {
    /// Whether the two rectangles share interior points. Rectangles that only
    /// touch along an edge do not overlap.
    pub open spec fn overlaps(self, other: Rectangle) -> bool {
        &&& self.x < other.x + other.width
        &&& self.x + self.width > other.x
        &&& self.y < other.y + other.height
        &&& self.y + self.height > other.y
    }

    /// Whether `point` lies strictly inside the rectangle.
    pub open spec fn contains(self, point: Position) -> bool {
        &&& point.x > self.x
        &&& self.x + self.width > point.x
        &&& point.y > self.y
        &&& self.height + self.y > point.y
    }

    /// Whether the two rectangles overlap.
    pub fn check_collision_recs(&self, other: &Rectangle) -> (hit: bool)
        ensures
            hit == self.overlaps(*other),
    {
        (self.x as i128) < other.x as i128 + other.width as i128
            && self.x as i128 + self.width as i128 > other.x as i128
            && (self.y as i128) < other.y as i128 + other.height as i128
            && self.y as i128 + self.height as i128 > other.y as i128
    }

    /// Whether `point` lies strictly inside the rectangle.
    pub fn check_collision_point(&self, point: Position) -> (inside: bool)
        ensures
            inside == self.contains(point),
    {
        point.x > self.x && self.x as i128 + self.width as i128 > point.x as i128 && point.y
            > self.y && self.height as i128 + self.y as i128 > point.y as i128
    }
}

/// The rectangle that a hitbox covers.
impl From<Hitbox> for Rectangle {
    fn from(source: Hitbox) -> (r: Rectangle) {
        source.to_rectangle()
    }
}

impl vstd::std_specs::convert::FromSpecImpl<Hitbox> for Rectangle {
    open spec fn obeys_from_spec() -> bool {
        true
    }

    open spec fn from_spec(source: Hitbox) -> Rectangle {
        source.rectangle()
    }
}

/// The rectangle that a sensor covers.
impl From<Triggerbox> for Rectangle {
    fn from(source: Triggerbox) -> (r: Rectangle) {
        source.to_rectangle()
    }
}

impl vstd::std_specs::convert::FromSpecImpl<Triggerbox> for Rectangle {
    open spec fn obeys_from_spec() -> bool {
        true
    }

    open spec fn from_spec(source: Triggerbox) -> Rectangle {
        source.rectangle()
    }
}

/// The rectangle that the bounds of a button cover.
impl From<Rect> for Rectangle {
    fn from(source: Rect) -> (r: Rectangle) {
        source.to_rectangle()
    }
}

impl vstd::std_specs::convert::FromSpecImpl<Rect> for Rectangle {
    open spec fn obeys_from_spec() -> bool {
        true
    }

    open spec fn from_spec(source: Rect) -> Rectangle {
        source.rectangle()
    }
}

/// Overlap does not depend on the order of the two rectangles.
pub proof fn law_overlap_symmetric(a: Rectangle, b: Rectangle)
    ensures
        a.overlaps(b) == b.overlaps(a),
{
}

/// A rectangle overlaps every copy of itself that is moved by less than its
/// width along X and by less than its height along Y.
pub proof fn law_overlap_after_small_move(a: Rectangle, b: Rectangle)
    requires
        b.width == a.width,
        b.height == a.height,
        -a.width < b.x - a.x < a.width,
        -a.height < b.y - a.y < a.height,
    ensures
        a.overlaps(b),
        b.overlaps(a),
{
}

/// Rectangles that only touch along an edge do not overlap.
pub proof fn law_touching_is_no_overlap(a: Rectangle, b: Rectangle)
    requires
        b.x == a.x + a.width || b.y == a.y + a.height || a.x == b.x + b.width || a.y == b.y
            + b.height,
    ensures
        !a.overlaps(b),
{
}

/// Point-in-shape test.
pub trait CollisionsPoint<T> {
    /// Whether `point` lies inside the shape.
    spec fn contains(&self, point: T) -> bool;

    fn point_inside_rec(&self, point: T) -> (inside: bool)
        ensures
            inside == self.contains(point),
    ;
}

/// Shape-against-shape overlap test.
pub trait CollisionsRec: Sized {
    /// Whether the two shapes overlap.
    spec fn overlaps(self, other: Self) -> bool;

    fn collision_rec(self, other: Self) -> (hit: bool)
        ensures
            hit == self.overlaps(other),
    ;
}

/// Place and size of an entity that is neither solid nor a sensor.
#[derive(Debug, Default, Clone, Copy, PartialEq, Eq, Structural)]
pub struct Transform {
    pub width: i64,
    pub height: i64,
    pub position: Position,
}

/// Jump state of a player-controlled body.
#[derive(Debug, Default, Clone, Copy, PartialEq, Eq, Structural)]
pub struct PlatformController {
    pub can_jump: bool,
    /// Frames since the body last stood on ground, as a fixed-point number.
    pub coyote_time: i64,
}

impl PlatformController {
    /// A controller in the air: no jump is granted, and no coyote time has run.
    pub fn new() -> (c: PlatformController)
        ensures
            c == (PlatformController { can_jump: false, coyote_time: 0 }),
    {
        PlatformController { can_jump: false, coyote_time: 0 }
    }
}

/// Marks an entity as a physics body. A rectangle without it is static terrain.
#[derive(Debug, Default, Clone, Copy, PartialEq, Eq, Structural)]
pub struct Moveable {
    pub velocity: Position,
    pub width: i64,
    pub height: i64,
}

impl Moveable {
    /// A body at rest, one tile in size.
    pub open spec fn fresh() -> Moveable {
        Moveable { velocity: Position { x: 0, y: 0 }, width: GRID, height: GRID }
    }

    /// A body at rest, one tile in size.
    pub fn new() -> (m: Self)
        ensures
            m == Moveable::fresh(),
    {
        Moveable { velocity: Position::new(0, 0), width: GRID, height: GRID }
    }

    /// The hitbox of this body's size at `position`.
    pub fn to_hitbox(&self, position: Position) -> (h: Hitbox)
        ensures
            h == (Hitbox { width: self.width, height: self.height, position }),
    {
        Hitbox { position, width: self.width, height: self.height }
    }
}

/// Countdown of a block that drops once the player has come near.
#[derive(Debug, Default, Clone, Copy, PartialEq, Eq, Structural)]
pub struct FallingBlock {
    pub count: u32,
    pub should_fall: bool,
}

impl FallingBlock {
    /// A block at rest that has not been set off.
    pub fn default() -> (b: Self)
        ensures
            b == (FallingBlock { count: 0, should_fall: false }),
    {
        FallingBlock { count: 0, should_fall: false }
    }
}

/// Solid, collidable rectangle.
#[derive(Debug, Default, Clone, Copy, PartialEq, Eq, Structural)]
pub struct Hitbox {
    pub width: i64,
    pub height: i64,
    pub position: Position,
}

impl Hitbox {
    /// The one-tile box with its top-left corner at `(x, y)`.
    pub open spec fn tile(x: i64, y: i64) -> Hitbox {
        Hitbox { width: GRID, height: GRID, position: Position { x, y } }
    }

    /// The box as a rectangle.
    pub open spec fn rectangle(self) -> Rectangle {
        Rectangle { x: self.position.x, y: self.position.y, width: self.width, height: self.height }
    }

    /// The one-tile box with its top-left corner at `(x, y)`.
    pub fn new(x: i64, y: i64) -> (h: Self)
        ensures
            h == Hitbox::tile(x, y),
    {
        Hitbox { position: Position::new(x, y), width: GRID, height: GRID }
    }

    /// The box as a rectangle.
    pub fn to_rectangle(self) -> (r: Rectangle)
        ensures
            r == self.rectangle(),
    {
        Rectangle { x: self.position.x, y: self.position.y, width: self.width, height: self.height }
    }
}

impl CollisionsPoint<Position> for Hitbox {
    open spec fn contains(&self, point: Position) -> bool {
        self.rectangle().contains(point)
    }

    fn point_inside_rec(&self, point: Position) -> (inside: bool) {
        self.to_rectangle().check_collision_point(point)
    }
}

impl CollisionsRec for Hitbox {
    open spec fn overlaps(self, other: Hitbox) -> bool {
        self.rectangle().overlaps(other.rectangle())
    }

    fn collision_rec(self, other: Hitbox) -> (hit: bool) {
        self.to_rectangle().check_collision_recs(&other.to_rectangle())
    }
}

/// Overlap of hitboxes does not depend on their order.
pub proof fn law_collision_symmetric(a: Hitbox, b: Hitbox)
    ensures
        a.overlaps(b) == b.overlaps(a),
{
}

/// Sensor rectangle: it collides with nothing and is only tested for overlap.
#[derive(Debug, Default, Clone, Copy, PartialEq, Eq, Structural)]
pub struct Triggerbox {
    pub width: i64,
    pub height: i64,
    pub position: Position,
}

impl Triggerbox {
    /// The box as a rectangle.
    pub open spec fn rectangle(self) -> Rectangle {
        Rectangle { x: self.position.x, y: self.position.y, width: self.width, height: self.height }
    }

    /// The box as a rectangle.
    pub fn to_rectangle(self) -> (r: Rectangle)
        ensures
            r == self.rectangle(),
    {
        Rectangle { x: self.position.x, y: self.position.y, width: self.width, height: self.height }
    }
}

/// A plain rectangle: the bounds of a palette button.
#[derive(Debug, Default, Clone, Copy, PartialEq, Eq, Structural)]
pub struct Rect {
    pub width: i64,
    pub height: i64,
    pub position: Position,
}

impl Rect {
    /// The box as a rectangle.
    pub open spec fn rectangle(self) -> Rectangle {
        Rectangle { x: self.position.x, y: self.position.y, width: self.width, height: self.height }
    }

    /// The box as a rectangle.
    pub fn to_rectangle(self) -> (r: Rectangle)
        ensures
            r == self.rectangle(),
    {
        Rectangle { x: self.position.x, y: self.position.y, width: self.width, height: self.height }
    }
}

/// Drag state of an object in the editor.
#[derive(Debug, Default, Clone, Copy, PartialEq, Eq, Structural)]
pub struct DragBox {
    pub dragging: bool,
    pub drag_offset: Position,
}

impl DragBox {
    /// The state of an object that nobody holds.
    pub open spec fn idle() -> DragBox {
        DragBox { dragging: false, drag_offset: Position { x: 0, y: 0 } }
    }

    /// The state of an object that nobody holds.
    pub fn default() -> (d: Self)
        ensures
            d == DragBox::idle(),
    {
        DragBox { dragging: false, drag_offset: Position::zero() }
    }
}

/// Name of the asset an entity is drawn with. Two placed objects are of the
/// same kind exactly when their sprite names are equal.
#[derive(Debug, Default)]
pub struct Sprite {
    pub name: String,
}

impl Clone for Sprite {
    fn clone(&self) -> (s: Self)
        ensures
            s == *self,
    {
        Sprite { name: self.name.clone() }
    }
}

/// The kinds of object the editor can place.
#[derive(Debug, Clone, Copy, PartialEq, Eq, Structural)]
pub enum ToolPalette {
    Block,
    FallingBlock,
    SpikeBlock,
}

impl ToolPalette {
    /// The lower-case name of the tool, which is also the name of its sprite.
    pub open spec fn name_spec(self) -> Seq<char> {
        match self {
            ToolPalette::Block => "block"@,
            ToolPalette::FallingBlock => "fallingblock"@,
            ToolPalette::SpikeBlock => "spikeblock"@,
        }
    }

    /// The lower-case name of the tool.
    pub fn name(self) -> (s: String)
        ensures
            s@ == self.name_spec(),
    {
        match self {
            ToolPalette::Block => "block".to_owned(),
            ToolPalette::FallingBlock => "fallingblock".to_owned(),
            ToolPalette::SpikeBlock => "spikeblock".to_owned(),
        }
    }

    /// Every tool, in palette order.
    pub fn all() -> (tools: Vec<ToolPalette>)
        ensures
            tools@ == seq![ToolPalette::Block, ToolPalette::FallingBlock, ToolPalette::SpikeBlock],
    {
        vec![ToolPalette::Block, ToolPalette::FallingBlock, ToolPalette::SpikeBlock]
    }

    /// Different tools have different names, so that the sprite name tells the
    /// kind of a placed object.
    pub proof fn law_names_differ(a: ToolPalette, b: ToolPalette)
        ensures
            a.name_spec() == b.name_spec() <==> a == b,
    {
        reveal_strlit("block");
        reveal_strlit("fallingblock");
        reveal_strlit("spikeblock");
        assert("block"@.len() == 5);
        assert("fallingblock"@.len() == 12);
        assert("spikeblock"@.len() == 10);
    }
}

impl Default for ToolPalette {
    fn default() -> (t: Self)
        ensures
            t == ToolPalette::Block,
    {
        ToolPalette::Block
    }
}

/// A button of the tool palette.
#[derive(Debug, Default)]
pub struct EditBtn {
    pub bounds: Rect,
    pub text: String,
    pub tool: ToolPalette,
}

impl Clone for EditBtn {
    fn clone(&self) -> (b: Self)
        ensures
            b == *self,
    {
        EditBtn { bounds: self.bounds, text: self.text.clone(), tool: self.tool }
    }
}

impl CollisionsPoint<Position> for EditBtn {
    open spec fn contains(&self, point: Position) -> bool {
        self.bounds.rectangle().contains(point)
    }

    fn point_inside_rec(&self, point: Position) -> (inside: bool) {
        self.bounds.to_rectangle().check_collision_point(point)
    }
}

/// What a toolbar icon does when it is clicked.
#[derive(Debug, Clone, Copy, PartialEq, Eq, Structural)]
pub enum IconKind {
    /// Saves the level.
    FileSaveClassic,
    /// Clears the level.
    EmptyBox,
    /// Does nothing.
    Bin,
}

impl Default for IconKind {
    fn default() -> (k: Self)
        ensures
            k == IconKind::Bin,
    {
        IconKind::Bin
    }
}

/// A toolbar button.
#[derive(Debug, Default, Clone, Copy, PartialEq, Eq, Structural)]
pub struct Icon {
    pub icon: IconKind,
    pub position: Position,
}

impl Icon {
    /// The area of the screen on which a click reaches the icon.
    pub open spec fn hit_area(self) -> Hitbox {
        Hitbox::tile(self.position.x, self.position.y)
    }

    /// The icon of the given kind at `position`.
    pub fn new(icon: IconKind, position: Position) -> (i: Self)
        ensures
            i == (Icon { icon, position }),
    {
        Icon { icon, position }
    }
}

/// The mode of the program: editing a level or playing it.
#[derive(Debug, Clone, Copy, PartialEq, Eq, Structural)]
pub struct EditState {
    pub should_save: bool,
    pub editing: bool,
}

impl EditState {
    /// The mode at the start of the program: editing, with nothing to save.
    pub fn new() -> (s: EditState)
        ensures
            s == (EditState { should_save: false, editing: true }),
    {
        EditState { should_save: false, editing: true }
    }

    /// Takes up a request to save the level: tells whether there was one and
    /// withdraws it.
    pub fn take_save_request(&mut self) -> (asked: bool)
        ensures
            asked == old(self).should_save,
            final(self).editing == old(self).editing,
            !final(self).should_save,
    {
        let asked = self.should_save;
        self.should_save = false;
        asked
    }
}

} // verus!
