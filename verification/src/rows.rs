//! The rows of the three tables, the draw commands a batch carries, and
//! the mathematical value of each.

use crate::identity::Identity;
use vstd::prelude::*;

verus! {

/// The characters of an optional string.
pub open spec fn text_of(s: Option<String>) -> Option<Seq<char>> {
    match s {
        Some(t) => Some(t@),
        None => None,
    }
}

fn copy_text(s: &Option<String>) -> (r: Option<String>)
    ensures
        r == *s,
{
    match s {
        Some(t) => Some(t.clone()),
        None => None,
    }
}

/// A client that has connected at least once.
#[derive(Debug, PartialEq, Eq)]
pub struct User {
    pub identity: Identity,
    pub name: Option<String>,
    pub online: bool,
}

/// What a `User` row says.
pub struct UserView {
    pub identity: Identity,
    pub name: Option<Seq<char>>,
    pub online: bool,
}

impl View for User {
    type V = UserView;

    open spec fn view(&self) -> UserView {
        UserView { identity: self.identity, name: text_of(self.name), online: self.online }
    }
}

impl Clone for User {
    fn clone(&self) -> (r: Self)
        ensures
            r == *self,
    {
        User { identity: self.identity, name: copy_text(&self.name), online: self.online }
    }
}

/// A drawable layer. `owner` is whoever wrote to it last; `base64` is the
/// content, a payload that nothing here looks into.
#[derive(Debug, PartialEq, Eq)]
pub struct Layer {
    pub id: i32,
    pub name: Option<String>,
    pub owner: Identity,
    pub base64: Option<String>,
    pub force_update: bool,
}

/// What a `Layer` row says.
pub struct LayerView {
    pub id: int,
    pub name: Option<Seq<char>>,
    pub owner: Identity,
    pub base64: Option<Seq<char>>,
    pub force_update: bool,
}

impl View for Layer {
    type V = LayerView;

    open spec fn view(&self) -> LayerView {
        LayerView {
            id: self.id as int,
            name: text_of(self.name),
            owner: self.owner,
            base64: text_of(self.base64),
            force_update: self.force_update,
        }
    }
}

impl Clone for Layer {
    fn clone(&self) -> (r: Self)
        ensures
            r == *self,
    {
        Layer {
            id: self.id,
            name: copy_text(&self.name),
            owner: self.owner,
            base64: copy_text(&self.base64),
            force_update: self.force_update,
        }
    }
}

/// A point of the canvas.
#[derive(Clone, Copy, Debug, PartialEq, Eq, Structural)]
pub struct Point {
    pub x: i32,
    pub y: i32,
}

/// How a stroke is drawn. `width_bits` and `alpha_bits` are the bit
/// patterns of two single-precision numbers, kept as they arrive.
#[derive(Debug, PartialEq, Eq)]
pub struct StrokeStyle {
    pub width_bits: u32,
    pub cap: String,
    pub color: i32,
    pub alpha_bits: u32,
}

/// What a `StrokeStyle` says.
pub struct StrokeStyleView {
    pub width_bits: u32,
    pub cap: Seq<char>,
    pub color: i32,
    pub alpha_bits: u32,
}

impl View for StrokeStyle {
    type V = StrokeStyleView;

    open spec fn view(&self) -> StrokeStyleView {
        StrokeStyleView {
            width_bits: self.width_bits,
            cap: self.cap@,
            color: self.color,
            alpha_bits: self.alpha_bits,
        }
    }
}

impl Clone for StrokeStyle {
    fn clone(&self) -> (r: Self)
        ensures
            r == *self,
    {
        StrokeStyle {
            width_bits: self.width_bits,
            cap: self.cap.clone(),
            color: self.color,
            alpha_bits: self.alpha_bits,
        }
    }
}

/// The mathematical value of an optional stroke style.
pub open spec fn style_of(s: Option<StrokeStyle>) -> Option<StrokeStyleView> {
    match s {
        Some(t) => Some(t@),
        None => None,
    }
}

/// One drawing instruction. It lives only inside a `Command`.
#[derive(Debug, PartialEq, Eq)]
pub struct DrawCommand {
    pub command_type: String,
    pub blend_mode: Option<String>,
    pub pos: Option<Point>,
    pub stroke_style: Option<StrokeStyle>,
    pub start_width: Option<i32>,
    pub end_width: Option<i32>,
}

/// What a `DrawCommand` says.
pub struct DrawCommandView {
    pub command_type: Seq<char>,
    pub blend_mode: Option<Seq<char>>,
    pub pos: Option<Point>,
    pub stroke_style: Option<StrokeStyleView>,
    pub start_width: Option<i32>,
    pub end_width: Option<i32>,
}

impl View for DrawCommand {
    type V = DrawCommandView;

    open spec fn view(&self) -> DrawCommandView {
        DrawCommandView {
            command_type: self.command_type@,
            blend_mode: text_of(self.blend_mode),
            pos: self.pos,
            stroke_style: style_of(self.stroke_style),
            start_width: self.start_width,
            end_width: self.end_width,
        }
    }
}

impl Clone for DrawCommand {
    fn clone(&self) -> (r: Self)
        ensures
            r == *self,
    {
        let stroke_style = match &self.stroke_style {
            Some(s) => Some(s.clone()),
            None => None,
        };
        DrawCommand {
            command_type: self.command_type.clone(),
            blend_mode: copy_text(&self.blend_mode),
            pos: self.pos,
            stroke_style,
            start_width: self.start_width,
            end_width: self.end_width,
        }
    }
}

/// The mathematical value of a run of draw commands, in playback order.
pub open spec fn batch_of(commands: Seq<DrawCommand>) -> Seq<DrawCommandView> {
    commands.map_values(|c: DrawCommand| c@)
}

/// A batch of draw commands that one client sent to one layer.
#[derive(Debug, PartialEq, Eq)]
pub struct Command {
    pub id: i32,
    pub layer: i32,
    pub owner: Identity,
    pub commands: Vec<DrawCommand>,
}

/// What a `Command` row says.
pub struct CommandView {
    pub id: int,
    pub layer: int,
    pub owner: Identity,
    pub commands: Seq<DrawCommandView>,
}

impl View for Command {
    type V = CommandView;

    open spec fn view(&self) -> CommandView {
        CommandView {
            id: self.id as int,
            layer: self.layer as int,
            owner: self.owner,
            commands: batch_of(self.commands@),
        }
    }
}

impl Clone for Command {
    fn clone(&self) -> (r: Self)
        ensures
            r.id == self.id,
            r.layer == self.layer,
            r.owner == self.owner,
            r.commands@ == self.commands@,
    {
        let commands = self.commands.clone();
        Command { id: self.id, layer: self.layer, owner: self.owner, commands }
    }
}

} // verus!
