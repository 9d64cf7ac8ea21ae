//! Herdr's replies other than the snapshot: exported layouts, pane layouts,
//! events, zoom state and command errors.
use vstd::prelude::*;
use crate::json::{
    as_flag, as_items, as_text, as_unsigned, field, field_of, flag, get, get_of, items, member, text, text_field,
    text_member, unsigned, Json,
};
use crate::agent::{parse_agent_status, spec_parse_agent_status, str_eq, AgentStatus};
use crate::client::{AgentStatusEvent, CommandError, Event};
use crate::layout::{LayoutDirection, LiveLayout, LiveLayoutNode};
use crate::prompt::{HerdrPaneLayout, HerdrPaneRect};
use crate::snapshot::opt_text;
use crate::text::append_str;

verus! {

/// The first index of a member named `key`.
pub proof fn lemma_member_index(fields: Seq<(String, Json)>, key: Seq<char>) -> (i: int)
    requires
        member(fields, key) is Some,
    ensures
        0 <= i < fields.len(),
        member(fields, key) == Some(fields[i].1),
    decreases fields.len(),
{
    if fields[0].0@ == key {
        0
    } else {
        let j = lemma_member_index(fields.drop_first(), key);
        assert(fields.drop_first()[j] == fields[j + 1]);
        j + 1
    }
}

/// A member of an object is smaller than the object.
pub proof fn lemma_member_smaller(fields: Vec<(String, Json)>, key: Seq<char>)
    ensures
        member(fields@, key) matches Some(c) ==> decreases_to!(Json::Object(fields) => c),
{
    broadcast use vstd::std_specs::vec::axiom_vec_decreases_to_view;
    if member(fields@, key) is Some {
        let i = lemma_member_index(fields@, key);
        let v = Json::Object(fields);
        assert(decreases_to!(v => v->Object_0));
        assert(decreases_to!(fields => fields@));
        assert(decreases_to!(fields@ => fields@[i]));
        assert(decreases_to!(fields@[i] => fields@[i].1));
    }
}

/// A layout node by value.
pub enum NodeView {
    Pane(Seq<char>),
    Split { direction: LayoutDirection, ratio_bits: u32, first: Box<NodeView>, second: Box<NodeView> },
}

pub open spec fn node_view(n: LiveLayoutNode) -> NodeView
    decreases n,
{
    match n {
        LiveLayoutNode::Pane(p) => NodeView::Pane(p@),
        LiveLayoutNode::Split { direction, ratio_bits, first, second } => NodeView::Split {
            direction,
            ratio_bits,
            first: Box::new(node_view(*first)),
            second: Box::new(node_view(*second)),
        },
    }
}

/// The number's value as a finite `f32`, by bits.
pub open spec fn f32_bits(j: Option<Json>) -> Option<u32> {
    match j {
        Some(Json::Number(n)) => n.f32_bits,
        _ => None,
    }
}

pub open spec fn missing_message(name: Seq<char>) -> Seq<char> {
    "Herdr layout is missing "@ + name
}

/// A node of an exported layout, or why it cannot be read.
pub open spec fn spec_layout_node(value: Json) -> Result<NodeView, Seq<char>>
    decreases value,
{
    match value {
        Json::Object(fields) => {
            let kind = text(member(fields@, "type"@));
            if kind == Some("pane"@) {
                match text(member(fields@, "pane_id"@)) {
                    Some(p) => Ok(NodeView::Pane(p)),
                    None => Err(missing_message("pane_id"@)),
                }
            } else if kind == Some("split"@) {
                let direction = text(member(fields@, "direction"@));
                if direction != Some("right"@) && direction != Some("down"@) {
                    Err("Herdr layout has an invalid split direction"@)
                } else {
                    match f32_bits(member(fields@, "ratio"@)) {
                        None => Err("Herdr layout has an invalid split ratio"@),
                        Some(ratio_bits) => match member(fields@, "first"@) {
                            None => Err("Herdr layout is missing its first child"@),
                            Some(first) => {
                                proof {
                                    lemma_member_smaller(fields, "first"@);
                                }
                                match spec_layout_node(first) {
                                    Err(e) => Err(e),
                                    Ok(first) => match member(fields@, "second"@) {
                                        None => Err("Herdr layout is missing its second child"@),
                                        Some(second) => {
                                            proof {
                                                lemma_member_smaller(fields, "second"@);
                                            }
                                            match spec_layout_node(second) {
                                                Err(e) => Err(e),
                                                Ok(second) => Ok(
                                                    NodeView::Split {
                                                        direction: if direction == Some("right"@) {
                                                            LayoutDirection::Right
                                                        } else {
                                                            LayoutDirection::Down
                                                        },
                                                        ratio_bits,
                                                        first: Box::new(first),
                                                        second: Box::new(second),
                                                    },
                                                ),
                                            }
                                        },
                                    },
                                }
                            },
                        },
                    }
                }
            } else {
                Err("Herdr layout has an invalid node"@)
            }
        },
        _ => Err("Herdr layout has an invalid node"@),
    }
}

fn missing_error(name: &str) -> (r: String)
    ensures
        r@ == missing_message(name@),
{
    let mut message = String::from_str("Herdr layout is missing ");
    append_str(&mut message, name);
    message
}

fn text_is(t: &Option<String>, expected: &str) -> (r: bool)
    ensures
        r == (opt_text(*t) == Some(expected@)),
{
    match t {
        Some(s) => str_eq(s.as_str(), expected),
        None => false,
    }
}

/// Reads a node of an exported layout.
pub fn parse_layout_node(value: &Json) -> (r: Result<LiveLayoutNode, String>)
    ensures
        match spec_layout_node(*value) {
            Ok(v) => r matches Ok(n) && node_view(n) == v,
            Err(e) => r matches Err(m) && m@ == e,
        },
    decreases value,
{
    let fields = match value {
        Json::Object(fields) => fields,
        _ => {
            return Err(String::from_str("Herdr layout has an invalid node"));
        },
    };
    let kind = text_member(value, "type");
    if text_is(&kind, "pane") {
        return match text_member(value, "pane_id") {
            Some(p) => Ok(LiveLayoutNode::Pane(p)),
            None => Err(missing_error("pane_id")),
        };
    }
    if !text_is(&kind, "split") {
        return Err(String::from_str("Herdr layout has an invalid node"));
    }
    let direction_text = text_member(value, "direction");
    let direction = if text_is(&direction_text, "right") {
        LayoutDirection::Right
    } else if text_is(&direction_text, "down") {
        LayoutDirection::Down
    } else {
        return Err(String::from_str("Herdr layout has an invalid split direction"));
    };
    let ratio_bits = match get(value, "ratio") {
        Some(Json::Number(n)) => match n.f32_bits {
            Some(bits) => bits,
            None => {
                return Err(String::from_str("Herdr layout has an invalid split ratio"));
            },
        },
        _ => {
            return Err(String::from_str("Herdr layout has an invalid split ratio"));
        },
    };
    let first_value = match get(value, "first") {
        Some(f) => f,
        None => {
            return Err(String::from_str("Herdr layout is missing its first child"));
        },
    };
    proof {
        lemma_member_smaller(*fields, "first"@);
    }
    let first = match parse_layout_node(first_value) {
        Ok(n) => n,
        Err(m) => {
            return Err(m);
        },
    };
    let second_value = match get(value, "second") {
        Some(s) => s,
        None => {
            return Err(String::from_str("Herdr layout is missing its second child"));
        },
    };
    proof {
        lemma_member_smaller(*fields, "second"@);
    }
    let second = match parse_layout_node(second_value) {
        Ok(n) => n,
        Err(m) => {
            return Err(m);
        },
    };
    Ok(LiveLayoutNode::Split { direction, ratio_bits, first: Box::new(first), second: Box::new(second) })
}

/// An exported layout by value.
pub struct LiveLayoutView {
    pub workspace_id: Seq<char>,
    pub tab_id: Seq<char>,
    pub zoomed: bool,
    pub focused_pane_id: Seq<char>,
    pub root: NodeView,
}

pub open spec fn live_layout_view(l: LiveLayout) -> LiveLayoutView {
    LiveLayoutView {
        workspace_id: l.workspace_id@,
        tab_id: l.tab_id@,
        zoomed: l.zoomed,
        focused_pane_id: l.focused_pane_id@,
        root: node_view(l.root),
    }
}

/// An exported layout, or why it cannot be read.
pub open spec fn spec_live_layout(value: Json) -> Result<LiveLayoutView, Seq<char>> {
    match text_field(value, "workspace_id"@) {
        None => Err(missing_message("workspace_id"@)),
        Some(workspace_id) => match text_field(value, "tab_id"@) {
            None => Err(missing_message("tab_id"@)),
            Some(tab_id) => match flag(field(value, "zoomed"@)) {
                None => Err("Herdr layout is missing zoom state"@),
                Some(zoomed) => match text_field(value, "focused_pane_id"@) {
                    None => Err(missing_message("focused_pane_id"@)),
                    Some(focused_pane_id) => match field(value, "root"@) {
                        None => Err("Herdr layout is missing its root"@),
                        Some(root) => match spec_layout_node(root) {
                            Err(e) => Err(e),
                            Ok(root) => Ok(LiveLayoutView { workspace_id, tab_id, zoomed, focused_pane_id, root }),
                        },
                    },
                },
            },
        },
    }
}

/// Reads an exported layout.
pub fn parse_live_layout(value: &Json) -> (r: Result<LiveLayout, String>)
    ensures
        match spec_live_layout(*value) {
            Ok(v) => r matches Ok(l) && live_layout_view(l) == v,
            Err(e) => r matches Err(m) && m@ == e,
        },
{
    let workspace_id = match text_member(value, "workspace_id") {
        Some(t) => t,
        None => {
            return Err(missing_error("workspace_id"));
        },
    };
    let tab_id = match text_member(value, "tab_id") {
        Some(t) => t,
        None => {
            return Err(missing_error("tab_id"));
        },
    };
    let zoomed = match as_flag(get(value, "zoomed")) {
        Some(z) => z,
        None => {
            return Err(String::from_str("Herdr layout is missing zoom state"));
        },
    };
    let focused_pane_id = match text_member(value, "focused_pane_id") {
        Some(t) => t,
        None => {
            return Err(missing_error("focused_pane_id"));
        },
    };
    let root = match get(value, "root") {
        Some(r) => r,
        None => {
            return Err(String::from_str("Herdr layout is missing its root"));
        },
    };
    match parse_layout_node(root) {
        Ok(root) => Ok(LiveLayout { workspace_id, tab_id, zoomed, focused_pane_id, root }),
        Err(m) => Err(m),
    }
}

/// The layout of a `layout.export` reply, or why it cannot be read.
pub open spec fn spec_exported_layout(reply: Json) -> Result<LiveLayoutView, Seq<char>> {
    match field_of(field(reply, "result"@), "layout"@) {
        None => Err("Herdr returned an invalid layout export"@),
        Some(l) => spec_live_layout(l),
    }
}

/// Reads the layout of a `layout.export` reply.
pub fn exported_layout(reply: &Json) -> (r: Result<LiveLayout, String>)
    ensures
        match spec_exported_layout(*reply) {
            Ok(v) => r matches Ok(l) && live_layout_view(l) == v,
            Err(e) => r matches Err(m) && m@ == e,
        },
{
    match get_of(get(reply, "result"), "layout") {
        Some(l) => parse_live_layout(l),
        None => Err(String::from_str("Herdr returned an invalid layout export")),
    }
}

/// A pane's rectangle by value.
pub struct RectView {
    pub pane_id: Seq<char>,
    pub x: u16,
    pub y: u16,
    pub width: u16,
    pub height: u16,
}

pub open spec fn rect_view(r: HerdrPaneRect) -> RectView {
    RectView { pane_id: r.pane_id@, x: r.x, y: r.y, width: r.width, height: r.height }
}

/// A coordinate: an unsigned integer that fits in `u16`.
pub open spec fn coordinate(value: Json, name: Seq<char>) -> Option<u16> {
    match unsigned(field(value, name)) {
        Some(n) => if n <= 0xffff {
            Some(n as u16)
        } else {
            None
        },
        None => None,
    }
}

pub open spec fn invalid_message(name: Seq<char>) -> Seq<char> {
    "Herdr layout has an invalid "@ + name
}

fn invalid_error(name: &str) -> (r: String)
    ensures
        r@ == invalid_message(name@),
{
    let mut message = String::from_str("Herdr layout has an invalid ");
    append_str(&mut message, name);
    message
}

fn read_coordinate(value: &Json, name: &str) -> (r: Result<u16, String>)
    ensures
        match coordinate(*value, name@) {
            Some(c) => r == Ok::<u16, String>(c),
            None => r matches Err(m) && m@ == invalid_message(name@),
        },
{
    match as_unsigned(get(value, name)) {
        Some(n) => if n <= 0xffff {
            Ok(n as u16)
        } else {
            Err(invalid_error(name))
        },
        None => Err(invalid_error(name)),
    }
}

/// A pane of a tab layout, or why it cannot be read.
pub open spec fn spec_rect(pane: Json) -> Result<RectView, Seq<char>> {
    match field(pane, "rect"@) {
        None => Err("Herdr pane is missing its rectangle"@),
        Some(rect) => match text_field(pane, "pane_id"@) {
            None => Err(missing_message("pane_id"@)),
            Some(pane_id) => match coordinate(rect, "x"@) {
                None => Err(invalid_message("x"@)),
                Some(x) => match coordinate(rect, "y"@) {
                    None => Err(invalid_message("y"@)),
                    Some(y) => match coordinate(rect, "width"@) {
                        None => Err(invalid_message("width"@)),
                        Some(width) => match coordinate(rect, "height"@) {
                            None => Err(invalid_message("height"@)),
                            Some(height) => Ok(RectView { pane_id, x, y, width, height }),
                        },
                    },
                },
            },
        },
    }
}

fn parse_rect(pane: &Json) -> (r: Result<HerdrPaneRect, String>)
    ensures
        match spec_rect(*pane) {
            Ok(v) => r matches Ok(x) && rect_view(x) == v,
            Err(e) => r matches Err(m) && m@ == e,
        },
{
    let rect = match get(pane, "rect") {
        Some(r) => r,
        None => {
            return Err(String::from_str("Herdr pane is missing its rectangle"));
        },
    };
    let pane_id = match text_member(pane, "pane_id") {
        Some(p) => p,
        None => {
            return Err(missing_error("pane_id"));
        },
    };
    let x = match read_coordinate(rect, "x") {
        Ok(v) => v,
        Err(m) => {
            return Err(m);
        },
    };
    let y = match read_coordinate(rect, "y") {
        Ok(v) => v,
        Err(m) => {
            return Err(m);
        },
    };
    let width = match read_coordinate(rect, "width") {
        Ok(v) => v,
        Err(m) => {
            return Err(m);
        },
    };
    let height = match read_coordinate(rect, "height") {
        Ok(v) => v,
        Err(m) => {
            return Err(m);
        },
    };
    Ok(HerdrPaneRect { pane_id, x, y, width, height })
}

/// The panes of a tab layout, or the error of the first that cannot be read.
pub open spec fn spec_rects(panes: Seq<Json>) -> Result<Seq<RectView>, Seq<char>>
    decreases panes.len(),
{
    if panes.len() == 0 {
        Ok(seq![])
    } else {
        match spec_rect(panes[0]) {
            Err(e) => Err(e),
            Ok(r) => match spec_rects(panes.drop_first()) {
                Err(e) => Err(e),
                Ok(rest) => Ok(seq![r] + rest),
            },
        }
    }
}

/// A tab layout by value.
pub struct PaneLayoutView {
    pub workspace_id: Seq<char>,
    pub x: u16,
    pub y: u16,
    pub width: u16,
    pub height: u16,
    pub panes: Seq<RectView>,
}

pub open spec fn pane_layout_view(l: HerdrPaneLayout) -> PaneLayoutView {
    PaneLayoutView {
        workspace_id: l.workspace_id@,
        x: l.x,
        y: l.y,
        width: l.width,
        height: l.height,
        panes: l.panes@.map_values(|r: HerdrPaneRect| rect_view(r)),
    }
}

/// The layout of Hunkle's tab, or why it cannot be read or is empty.
pub open spec fn spec_pane_layout(layout: Json) -> Result<PaneLayoutView, Seq<char>> {
    match field(layout, "area"@) {
        None => Err("Herdr layout is missing its area"@),
        Some(area) => match items(field(layout, "panes"@)) {
            None => Err("Herdr layout is missing its panes"@),
            Some(list) => match spec_rects(list) {
                Err(e) => Err(e),
                Ok(panes) => match coordinate(area, "width"@) {
                    None => Err(invalid_message("width"@)),
                    Some(width) => match coordinate(area, "height"@) {
                        None => Err(invalid_message("height"@)),
                        Some(height) => if width == 0 || height == 0 || panes.len() == 0 {
                            Err("Herdr returned an empty tab layout"@)
                        } else {
                            match text_field(layout, "workspace_id"@) {
                                None => Err(missing_message("workspace_id"@)),
                                Some(workspace_id) => match coordinate(area, "x"@) {
                                    None => Err(invalid_message("x"@)),
                                    Some(x) => match coordinate(area, "y"@) {
                                        None => Err(invalid_message("y"@)),
                                        Some(y) => Ok(PaneLayoutView { workspace_id, x, y, width, height, panes }),
                                    },
                                },
                            }
                        },
                    },
                },
            },
        },
    }
}

/// Reads the layout of Hunkle's tab.
pub fn parse_pane_layout(layout: &Json) -> (r: Result<HerdrPaneLayout, String>)
    ensures
        match spec_pane_layout(*layout) {
            Ok(v) => r matches Ok(l) && pane_layout_view(l) == v,
            Err(e) => r matches Err(m) && m@ == e,
        },
{
    let area = match get(layout, "area") {
        Some(a) => a,
        None => {
            return Err(String::from_str("Herdr layout is missing its area"));
        },
    };
    let list = match as_items(get(layout, "panes")) {
        Some(l) => l,
        None => {
            return Err(String::from_str("Herdr layout is missing its panes"));
        },
    };
    let mut panes: Vec<HerdrPaneRect> = Vec::new();
    let mut i: usize = 0;
    assert(list@.skip(0) =~= list@);
    while i < list.len()
        invariant
            i <= list.len(),
            panes@.len() == i,
            field(*layout, "area"@) is Some,
            items(field(*layout, "panes"@)) == Some(list@),
            spec_rects(list@) == (match spec_rects(list@.skip(i as int)) {
                Ok(rest) => Ok(panes@.map_values(|r: HerdrPaneRect| rect_view(r)) + rest),
                Err(e) => Err(e),
            }),
        decreases list.len() - i,
    {
        let ghost rest = list@.skip(i as int);
        assert(rest[0] == list@[i as int]);
        assert(rest.drop_first() =~= list@.skip(i + 1));
        let ghost before = panes@.map_values(|r: HerdrPaneRect| rect_view(r));
        match parse_rect(&list[i]) {
            Ok(rect) => {
                panes.push(rect);
                proof {
                    let after = panes@.map_values(|r: HerdrPaneRect| rect_view(r));
                    assert(after =~= before.push(rect_view(rect)));
                    match spec_rects(list@.skip(i + 1)) {
                        Ok(tail) => {
                            assert(before + (seq![rect_view(rect)] + tail) =~= after + tail);
                        },
                        Err(_) => {},
                    }
                }
            },
            Err(m) => {
                return Err(m);
            },
        }
        i = i + 1;
    }
    proof {
        assert(list@.skip(list@.len() as int) =~= Seq::<Json>::empty());
        assert(panes@.map_values(|r: HerdrPaneRect| rect_view(r)) + Seq::<RectView>::empty() =~= panes@.map_values(
            |r: HerdrPaneRect| rect_view(r),
        ));
    }
    let width = match read_coordinate(area, "width") {
        Ok(v) => v,
        Err(m) => {
            return Err(m);
        },
    };
    let height = match read_coordinate(area, "height") {
        Ok(v) => v,
        Err(m) => {
            return Err(m);
        },
    };
    if width == 0 || height == 0 || panes.len() == 0 {
        return Err(String::from_str("Herdr returned an empty tab layout"));
    }
    let workspace_id = match text_member(layout, "workspace_id") {
        Some(w) => w,
        None => {
            return Err(missing_error("workspace_id"));
        },
    };
    let x = match read_coordinate(area, "x") {
        Ok(v) => v,
        Err(m) => {
            return Err(m);
        },
    };
    let y = match read_coordinate(area, "y") {
        Ok(v) => v,
        Err(m) => {
            return Err(m);
        },
    };
    Ok(HerdrPaneLayout { workspace_id, x, y, width, height, panes })
}

/// The tab layout of a `pane layout` reply.
pub fn pane_layout_reply(reply: &Json) -> (r: Result<HerdrPaneLayout, String>)
    ensures
        match field_of(field(*reply, "result"@), "layout"@) {
            None => r matches Err(m) && m@ == "Herdr did not return the tab layout"@,
            Some(l) => match spec_pane_layout(l) {
                Ok(v) => r matches Ok(x) && pane_layout_view(x) == v,
                Err(e) => r matches Err(m) && m@ == e,
            },
        },
{
    match get_of(get(reply, "result"), "layout") {
        Some(l) => parse_pane_layout(l),
        None => Err(String::from_str("Herdr did not return the tab layout")),
    }
}

/// The agent status change an event announces: its workspace, pane and
/// status; nothing for another event.
pub open spec fn spec_event(value: Json) -> Option<(Seq<char>, Seq<char>, AgentStatus)> {
    let data = field(value, "data"@);
    match (text(field_of(data, "workspace_id"@)), text(field_of(data, "pane_id"@)), text_field(value, "event"@)) {
        (Some(w), Some(p), Some(kind)) => if kind == "pane_agent_status_changed"@ {
            Some((w, p, spec_parse_agent_status(text(field_of(data, "agent_status"@)))))
        } else {
            None
        },
        _ => None,
    }
}

/// Reads an event of Herdr's event stream.
pub fn parse_event(value: &Json) -> (r: Option<Event>)
    ensures
        match spec_event(*value) {
            Some((w, p, s)) => r matches Some(Event::AgentStatus(e)) && e.workspace_id@ == w && e.pane_id@ == p
                && e.status == s,
            None => r is None,
        },
{
    let data = get(value, "data");
    let workspace_id = match as_text(get_of(data, "workspace_id")) {
        Some(w) => w,
        None => {
            return None;
        },
    };
    let pane_id = match as_text(get_of(data, "pane_id")) {
        Some(p) => p,
        None => {
            return None;
        },
    };
    let kind = match text_member(value, "event") {
        Some(k) => k,
        None => {
            return None;
        },
    };
    if !str_eq(kind.as_str(), "pane_agent_status_changed") {
        return None;
    }
    let status_text = as_text(get_of(data, "agent_status"));
    let status = match &status_text {
        Some(s) => parse_agent_status(Some(s.as_str())),
        None => parse_agent_status(None),
    };
    Some(Event::AgentStatus(AgentStatusEvent { workspace_id, pane_id, status }))
}

/// The zoom state a `pane zoom` reply reports.
pub fn zoom_state(reply: &Json) -> (r: Result<bool, String>)
    ensures
        match flag(field_of(field_of(field(*reply, "result"@), "zoom"@), "zoomed"@)) {
            Some(z) => r == Ok::<bool, String>(z),
            None => r matches Err(m) && m@ == "Herdr did not report the fullscreen state"@,
        },
{
    match as_flag(get_of(get_of(get(reply, "result"), "zoom"), "zoomed")) {
        Some(z) => Ok(z),
        None => Err(String::from_str("Herdr did not report the fullscreen state")),
    }
}

/// A command error by value.
pub open spec fn error_view(e: CommandError) -> (Option<Seq<char>>, Seq<char>) {
    (opt_text(e.code), e.message@)
}

/// The error a reply's `error` member describes.
pub open spec fn spec_command_error(error: Json) -> (Option<Seq<char>>, Seq<char>) {
    (
        text_field(error, "code"@),
        match text_field(error, "message"@) {
            Some(m) => m,
            None => "Herdr command failed"@,
        },
    )
}

/// Reads the error a reply's `error` member describes.
pub fn command_error(error: &Json) -> (r: CommandError)
    ensures
        error_view(r) == spec_command_error(*error),
{
    let message = match text_member(error, "message") {
        Some(m) => m,
        None => String::from_str("Herdr command failed"),
    };
    CommandError { code: text_member(error, "code"), message }
}

/// The error a failed command's standard error describes: its JSON `error`
/// member when it has one, else its first non-blank line, else a fixed message.
pub open spec fn spec_stderr_error(stderr_value: Option<Json>, stderr: Seq<u8>) -> (Option<Seq<char>>, Seq<char>) {
    match field_of(stderr_value, "error"@) {
        Some(e) => spec_command_error(e),
        None => (
            None,
            match crate::client::first_detail(crate::client::utf8_lossy(stderr)) {
                Some(d) => d,
                None => "Herdr command failed"@,
            },
        ),
    }
}

fn stderr_error(stderr_value: Option<&Json>, stderr: &[u8]) -> (r: CommandError)
    ensures
        error_view(r) == spec_stderr_error(
            match stderr_value {
                Some(v) => Some(*v),
                None => None,
            },
            stderr@,
        ),
{
    match get_of(stderr_value, "error") {
        Some(e) => command_error(e),
        None => {
            let message = match crate::client::stderr_detail(stderr) {
                Some(d) => d,
                None => String::from_str("Herdr command failed"),
            };
            CommandError::unavailable(message)
        },
    }
}

/// What a command's reply means: its value, or the error it reports.
/// `stdout` is `None` when the output was blank, else the JSON it held or
/// why it was no JSON; `stderr_value` is the JSON the error output held.
pub open spec fn spec_decode_response(
    stdout: Option<Result<Json, String>>,
    stderr_value: Option<Json>,
    stderr: Seq<u8>,
    success: bool,
) -> Result<Json, (Option<Seq<char>>, Seq<char>)> {
    match stdout {
        None => if success {
            Ok(Json::Null)
        } else {
            Err(spec_stderr_error(stderr_value, stderr))
        },
        Some(Err(detail)) => Err(
            (
                None,
                match crate::client::first_detail(crate::client::utf8_lossy(stderr)) {
                    Some(d) => d,
                    None => "Could not read Herdr response: "@ + detail@,
                },
            ),
        ),
        Some(Ok(v)) => match field(v, "error"@) {
            Some(e) => Err(spec_command_error(e)),
            None => if !success {
                Err((None, "Herdr command failed"@))
            } else {
                Ok(v)
            },
        },
    }
}

/// Decides what a command's reply means.
pub fn decode_response(
    stdout: Option<Result<Json, String>>,
    stderr_value: Option<Json>,
    stderr: &[u8],
    success: bool,
) -> (r: Result<Json, CommandError>)
    ensures
        match spec_decode_response(stdout, stderr_value, stderr@, success) {
            Ok(v) => r == Ok::<Json, CommandError>(v),
            Err(e) => r matches Err(x) && error_view(x) == e,
        },
{
    match stdout {
        None => if success {
            Ok(Json::Null)
        } else {
            Err(stderr_error(stderr_value.as_ref(), stderr))
        },
        Some(Err(detail)) => {
            let message = match crate::client::stderr_detail(stderr) {
                Some(d) => d,
                None => {
                    let mut m = String::from_str("Could not read Herdr response: ");
                    append_str(&mut m, detail.as_str());
                    m
                },
            };
            Err(CommandError::unavailable(message))
        },
        Some(Ok(v)) => {
            let error = match get(&v, "error") {
                Some(e) => Some(command_error(e)),
                None => None,
            };
            match error {
                Some(e) => Err(e),
                None => if !success {
                    Err(CommandError::unavailable(String::from_str("Herdr command failed")))
                } else {
                    Ok(v)
                },
            }
        },
    }
}

/// The agent of a scheduler reply, which must run in `expected_pane_id`.
pub open spec fn spec_scheduler_agent(reply: Json, expected_pane_id: Seq<char>) -> Result<Json, Seq<char>> {
    match field_of(field(reply, "result"@), "agent"@) {
        None => Err("Herdr returned no agent"@),
        Some(agent) => if text_field(agent, "pane_id"@) != Some(expected_pane_id) {
            Err("Herdr returned an agent in an unexpected pane"@)
        } else {
            Ok(agent)
        },
    }
}

pub fn scheduler_agent<'a>(reply: &'a Json, expected_pane_id: &str) -> (r: Result<&'a Json, String>)
    ensures
        match spec_scheduler_agent(*reply, expected_pane_id@) {
            Ok(a) => r matches Ok(x) && *x == a,
            Err(e) => r matches Err(m) && m@ == e,
        },
{
    let agent = match get_of(get(reply, "result"), "agent") {
        Some(a) => a,
        None => {
            return Err(String::from_str("Herdr returned no agent"));
        },
    };
    let matches = match text_member(agent, "pane_id") {
        Some(p) => str_eq(p.as_str(), expected_pane_id),
        None => false,
    };
    if !matches {
        return Err(String::from_str("Herdr returned an agent in an unexpected pane"));
    }
    Ok(agent)
}

/// The status of the agent of a scheduler reply.
pub fn scheduler_agent_status(reply: &Json, expected_pane_id: &str) -> (r: Result<AgentStatus, String>)
    ensures
        match spec_scheduler_agent(*reply, expected_pane_id@) {
            Ok(a) => r == Ok::<AgentStatus, String>(spec_parse_agent_status(text_field(a, "agent_status"@))),
            Err(e) => r matches Err(m) && m@ == e,
        },
{
    let agent = match scheduler_agent(reply, expected_pane_id) {
        Ok(a) => a,
        Err(m) => {
            return Err(m);
        },
    };
    let status_text = text_member(agent, "agent_status");
    match &status_text {
        Some(s) => Ok(parse_agent_status(Some(s.as_str()))),
        None => Ok(parse_agent_status(None)),
    }
}

/// Whether a pane runs nothing but its shell: its only foreground process
/// is the shell.
pub open spec fn spec_idle_shell(reply: Json) -> bool {
    let info = field_of(field(reply, "result"@), "process_info"@);
    match (info, unsigned(field_of(info, "shell_pid"@))) {
        (Some(i), Some(shell)) => match items(field(i, "foreground_processes"@)) {
            Some(p) => p.len() == 1 && unsigned(field(p[0], "pid"@)) == Some(shell),
            None => false,
        },
        _ => false,
    }
}

pub fn pane_is_idle_shell(reply: &Json) -> (r: bool)
    ensures
        r == spec_idle_shell(*reply),
{
    let info = match get_of(get(reply, "result"), "process_info") {
        Some(i) => i,
        None => {
            return false;
        },
    };
    let shell = match as_unsigned(get(info, "shell_pid")) {
        Some(s) => s,
        None => {
            return false;
        },
    };
    match as_items(get(info, "foreground_processes")) {
        Some(p) => p.len() == 1 && as_unsigned(get(&p[0], "pid")) == Some(shell),
        None => false,
    }
}

/// ASCII whitespace: space, tab, line feed, form feed and carriage return
/// (`u8::is_ascii_whitespace`).
pub open spec fn is_ascii_space(b: u8) -> bool {
    b == 0x20 || b == 0x09 || b == 0x0a || b == 0x0c || b == 0x0d
}

/// Whether a command printed nothing but whitespace.
pub fn is_blank(bytes: &[u8]) -> (r: bool)
    ensures
        r == (forall|i: int| 0 <= i < bytes@.len() ==> is_ascii_space(#[trigger] bytes@[i])),
{
    let mut i: usize = 0;
    while i < bytes.len()
        invariant
            i <= bytes.len(),
            forall|k: int| 0 <= k < i ==> is_ascii_space(#[trigger] bytes@[k]),
        decreases bytes.len() - i,
    {
        let b = bytes[i];
        if !(b == 0x20 || b == 0x09 || b == 0x0a || b == 0x0c || b == 0x0d) {
            assert(!is_ascii_space(bytes@[i as int]));
            return false;
        }
        i = i + 1;
    }
    true
}

} // verus!
