//! Presentation choices that feed back into the core's configuration: the
//! rendering mode chosen on the command line decides the history cap, and
//! a record's loss rate decides the colour its row is drawn in.

use vstd::prelude::*;

verus! {

/// The three ways a metrics snapshot is drawn. Core state never depends
/// on the mode; only the history cap is derived from it at startup.
#[derive(Clone, Copy, Debug, PartialEq, Eq, Structural)]
pub enum ViewMode {
    /// Rolling line chart per target.
    Graph,
    /// One row of figures per target.
    Table,
    /// One mark per sample per target.
    Point,
}

/// The mode a command-line string selects; anything unrecognized falls
/// back to the graph view.
pub open spec fn spec_view_mode(s: Seq<char>) -> ViewMode {
    if s == "table"@ {
        ViewMode::Table
    } else if s == "point"@ {
        ViewMode::Point
    } else {
        ViewMode::Graph
    }
}

/// Select the view mode named by the operator, falling back to the graph
/// view on anything unrecognized.
pub fn parse_view_mode(mode: &String) -> (m: ViewMode)
    ensures
        m == spec_view_mode(mode@),
{
    let table_name: String = "table".to_owned();
    let point_name: String = "point".to_owned();
    if mode.eq(&table_name) {
        ViewMode::Table
    } else if mode.eq(&point_name) {
        ViewMode::Point
    } else {
        ViewMode::Graph
    }
}

/// The sample-history cap a view needs: the point view draws one mark per
/// sample and keeps 200, the compact views keep 10. Fixed at startup and
/// threaded into every record at creation.
pub fn cap_for_view(mode: ViewMode) -> (c: usize)
    ensures
        mode == ViewMode::Point ==> c == 200,
        mode != ViewMode::Point ==> c == 10,
        c >= 1,
{
    if mode == ViewMode::Point {
        200
    } else {
        10
    }
}

/// The colour a target's figures are drawn in, by its loss rate.
#[derive(Clone, Copy, Debug, PartialEq, Eq, Structural)]
pub enum LossColor {
    /// No loss at all.
    Green,
    /// Some loss, up to half the attempts.
    Yellow,
    /// More than half the attempts lost.
    Red,
}

/// The colour for a loss rate given in hundredths of a percent: red above
/// 50%, yellow above 0%, green at exactly 0%.
pub open spec fn spec_loss_color(loss_rate_bp: u64) -> LossColor {
    if loss_rate_bp > 5000 {
        LossColor::Red
    } else if loss_rate_bp > 0 {
        LossColor::Yellow
    } else {
        LossColor::Green
    }
}

/// Classify a loss rate, given in hundredths of a percent, into the colour
/// its row is drawn in.
pub fn get_loss_color_and_emoji(loss_rate_bp: u64) -> (c: LossColor)
    ensures
        c == spec_loss_color(loss_rate_bp),
{
    if loss_rate_bp > 5000 {
        LossColor::Red
    } else if loss_rate_bp > 0 {
        LossColor::Yellow
    } else {
        LossColor::Green
    }
}

} // verus!
