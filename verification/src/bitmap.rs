//! The icon of the menu, drawn on a bitmap: its size, the steps, and what is given back when.

use crate::steps::{
    last_work_of, lemma_last_work, lemma_no_step_twice, lemma_run, lemma_steps_from, steps_from,
    Steps,
};
use vstd::prelude::*;

verus! {

/// The smallest edge of the bitmap.
pub const MIN_ICON_EDGE: i32 = 16;

/// The edge of the bitmap for the system's edge of a menu check mark.
pub fn icon_edge(metric: i32) -> (edge: i32)
    ensures
        edge == if metric < 16 {
            16
        } else {
            metric as int
        },
{
    if metric < MIN_ICON_EDGE {
        MIN_ICON_EDGE
    } else {
        metric
    }
}

/// The steps of drawing the icon. Each before the drawing itself takes hold of a resource.
#[derive(Clone, Copy, Debug, Eq, PartialEq, Structural)]
pub enum DrawStep {
    ExtractIcon,
    GetScreenContext,
    CreateMemoryContext,
    CreateBitmap,
    DrawIcon,
    /// There is a bitmap with the icon on it.
    Drawn,
    /// There is no bitmap.
    Failed,
}

impl Steps for DrawStep {
    open spec fn after(self, ok: bool) -> Self {
        if !ok && self != DrawStep::Drawn {
            DrawStep::Failed
        } else {
            match self {
                DrawStep::ExtractIcon => DrawStep::GetScreenContext,
                DrawStep::GetScreenContext => DrawStep::CreateMemoryContext,
                DrawStep::CreateMemoryContext => DrawStep::CreateBitmap,
                DrawStep::CreateBitmap => DrawStep::DrawIcon,
                DrawStep::DrawIcon => DrawStep::Drawn,
                DrawStep::Drawn => DrawStep::Drawn,
                DrawStep::Failed => DrawStep::Failed,
            }
        }
    }

    open spec fn left(self) -> nat {
        match self {
            DrawStep::ExtractIcon => 5,
            DrawStep::GetScreenContext => 4,
            DrawStep::CreateMemoryContext => 3,
            DrawStep::CreateBitmap => 2,
            DrawStep::DrawIcon => 1,
            DrawStep::Drawn => 0,
            DrawStep::Failed => 0,
        }
    }

    proof fn steps_run_out(self, ok: bool) {
    }
}

/// The step that follows `step`, which went well or not. The first failure ends the drawing.
pub fn next_draw_step(step: DrawStep, ok: bool) -> (next: DrawStep)
    ensures
        next == step.after(ok),
{
    match step {
        DrawStep::Drawn => DrawStep::Drawn,
        DrawStep::Failed => DrawStep::Failed,
        _ => {
            if !ok {
                return DrawStep::Failed;
            }
            match step {
                DrawStep::ExtractIcon => DrawStep::GetScreenContext,
                DrawStep::GetScreenContext => DrawStep::CreateMemoryContext,
                DrawStep::CreateMemoryContext => DrawStep::CreateBitmap,
                DrawStep::CreateBitmap => DrawStep::DrawIcon,
                _ => DrawStep::Drawn,
            }
        },
    }
}

/// What drawing the icon takes hold of.
#[derive(Clone, Copy, Debug, Eq, PartialEq, Structural)]
pub enum DrawResource {
    Icon,
    ScreenContext,
    MemoryContext,
    Bitmap,
}

/// The step that takes hold of `resource`.
pub open spec fn taking_step(resource: DrawResource) -> DrawStep {
    match resource {
        DrawResource::Icon => DrawStep::ExtractIcon,
        DrawResource::ScreenContext => DrawStep::GetScreenContext,
        DrawResource::MemoryContext => DrawStep::CreateMemoryContext,
        DrawResource::Bitmap => DrawStep::CreateBitmap,
    }
}

/// What is given back, in this order, when the work ends with `last`, which went well or not: what
/// was taken last goes first, but for the bitmap, which goes last where the drawing on it failed.
pub open spec fn released_after(last: DrawStep, ok: bool) -> Seq<DrawResource> {
    let tools = seq![
        DrawResource::MemoryContext,
        DrawResource::ScreenContext,
        DrawResource::Icon,
    ];
    match last {
        DrawStep::ExtractIcon => seq![],
        DrawStep::GetScreenContext => tools.skip(2),
        DrawStep::CreateMemoryContext => tools.skip(1),
        DrawStep::CreateBitmap => tools,
        DrawStep::DrawIcon => if ok {
            tools
        } else {
            tools.push(DrawResource::Bitmap)
        },
        DrawStep::Drawn => seq![],
        DrawStep::Failed => seq![],
    }
}

/// What to give back, in this order, when the work ends with `last`: the step that failed, or the
/// drawing itself.
pub fn resources_to_release(last: DrawStep, ok: bool) -> (released: Vec<DrawResource>)
    ensures
        released@ == released_after(last, ok),
{
    let mut released: Vec<DrawResource> = Vec::new();
    match last {
        DrawStep::ExtractIcon | DrawStep::Drawn | DrawStep::Failed => {},
        DrawStep::GetScreenContext => {
            released.push(DrawResource::Icon);
        },
        DrawStep::CreateMemoryContext => {
            released.push(DrawResource::ScreenContext);
            released.push(DrawResource::Icon);
        },
        DrawStep::CreateBitmap => {
            released.push(DrawResource::MemoryContext);
            released.push(DrawResource::ScreenContext);
            released.push(DrawResource::Icon);
        },
        DrawStep::DrawIcon => {
            released.push(DrawResource::MemoryContext);
            released.push(DrawResource::ScreenContext);
            released.push(DrawResource::Icon);
            if !ok {
                released.push(DrawResource::Bitmap);
            }
        },
    }
    assert(released@ == released_after(last, ok));
    released
}

/// When a step is taken: each waits for all before it.
pub open spec fn is_draw_step_taken(step: DrawStep, ok: spec_fn(DrawStep) -> bool) -> bool {
    let icon = ok(DrawStep::ExtractIcon);
    let screen = icon && ok(DrawStep::GetScreenContext);
    let memory = screen && ok(DrawStep::CreateMemoryContext);
    let bitmap = memory && ok(DrawStep::CreateBitmap);
    let drawn = bitmap && ok(DrawStep::DrawIcon);
    match step {
        DrawStep::ExtractIcon => true,
        DrawStep::GetScreenContext => icon,
        DrawStep::CreateMemoryContext => screen,
        DrawStep::CreateBitmap => memory,
        DrawStep::DrawIcon => bitmap,
        DrawStep::Drawn => drawn,
        DrawStep::Failed => !drawn,
    }
}

/// Drawing the icon always ends, with no step taken twice and each taken exactly when
/// `is_draw_step_taken` says. It ends with a bitmap if every step went well.
pub proof fn drawing_ends_well(ok: spec_fn(DrawStep) -> bool, step: DrawStep)
    ensures
        ({
            let steps = steps_from(DrawStep::ExtractIcon, ok);
            &&& steps.len() > 1
            &&& steps.no_duplicates()
            &&& steps.contains(step) <==> is_draw_step_taken(step, ok)
            &&& steps.last() == if is_draw_step_taken(DrawStep::Drawn, ok) {
                DrawStep::Drawn
            } else {
                DrawStep::Failed
            }
        }),
{
    lemma_steps_from(DrawStep::Failed, ok, step);
    lemma_steps_from(DrawStep::Drawn, ok, step);
    lemma_steps_from(DrawStep::DrawIcon, ok, step);
    lemma_steps_from(DrawStep::CreateBitmap, ok, step);
    lemma_steps_from(DrawStep::CreateMemoryContext, ok, step);
    lemma_steps_from(DrawStep::GetScreenContext, ok, step);
    lemma_steps_from(DrawStep::ExtractIcon, ok, step);
    lemma_no_step_twice(DrawStep::ExtractIcon, ok);
    lemma_last_work(DrawStep::ExtractIcon, ok);
}

/// On every run, whichever steps go well, what was taken hold of is given back at its end, each
/// thing once and nothing else. The one thing kept is the bitmap, where the icon was drawn on it.
pub proof fn nothing_leaks(ok: spec_fn(DrawStep) -> bool, resource: DrawResource)
    ensures
        ({
            let steps = steps_from(DrawStep::ExtractIcon, ok);
            let last = last_work_of(steps);
            let released = released_after(last, ok(last));
            let taken = steps.contains(taking_step(resource)) && ok(taking_step(resource));
            let kept = resource == DrawResource::Bitmap && steps.last() == DrawStep::Drawn;
            &&& released.no_duplicates()
            &&& released.contains(resource) <==> taken && !kept
            &&& kept ==> taken
        }),
{
    drawing_ends_well(ok, taking_step(resource));
    lemma_last_work(DrawStep::DrawIcon, ok);
    lemma_last_work(DrawStep::CreateBitmap, ok);
    lemma_last_work(DrawStep::CreateMemoryContext, ok);
    lemma_last_work(DrawStep::GetScreenContext, ok);
    lemma_last_work(DrawStep::ExtractIcon, ok);
    let last = last_work_of(steps_from(DrawStep::ExtractIcon, ok));
    let released = released_after(last, ok(last));
    assert(last == DrawStep::CreateMemoryContext ==> released == seq![
        DrawResource::ScreenContext,
        DrawResource::Icon,
    ]);
    assert(released.len() > 0 ==> released.contains(released[0]));
    assert(released.len() > 1 ==> released.contains(released[1]));
    assert(released.len() > 2 ==> released.contains(released[2]));
    assert(released.len() > 3 ==> released.contains(released[3]));
}

/// Every drawing of the icon, step by step, up to the first failure.
#[verifier::rlimit(80)]
pub proof fn icons_are_drawn_step_by_step(ok: spec_fn(DrawStep) -> bool)
    ensures
        steps_from(DrawStep::ExtractIcon, ok) == if !ok(DrawStep::ExtractIcon) {
            seq![DrawStep::ExtractIcon, DrawStep::Failed]
        } else if !ok(DrawStep::GetScreenContext) {
            seq![DrawStep::ExtractIcon, DrawStep::GetScreenContext, DrawStep::Failed]
        } else if !ok(DrawStep::CreateMemoryContext) {
            seq![
                DrawStep::ExtractIcon,
                DrawStep::GetScreenContext,
                DrawStep::CreateMemoryContext,
                DrawStep::Failed,
            ]
        } else if !ok(DrawStep::CreateBitmap) {
            seq![
                DrawStep::ExtractIcon,
                DrawStep::GetScreenContext,
                DrawStep::CreateMemoryContext,
                DrawStep::CreateBitmap,
                DrawStep::Failed,
            ]
        } else if !ok(DrawStep::DrawIcon) {
            seq![
                DrawStep::ExtractIcon,
                DrawStep::GetScreenContext,
                DrawStep::CreateMemoryContext,
                DrawStep::CreateBitmap,
                DrawStep::DrawIcon,
                DrawStep::Failed,
            ]
        } else {
            seq![
                DrawStep::ExtractIcon,
                DrawStep::GetScreenContext,
                DrawStep::CreateMemoryContext,
                DrawStep::CreateBitmap,
                DrawStep::DrawIcon,
                DrawStep::Drawn,
            ]
        },
{
    lemma_run(DrawStep::ExtractIcon, ok);
    lemma_run(DrawStep::GetScreenContext, ok);
    lemma_run(DrawStep::CreateMemoryContext, ok);
    lemma_run(DrawStep::CreateBitmap, ok);
    lemma_run(DrawStep::DrawIcon, ok);
    lemma_run(DrawStep::Drawn, ok);
    lemma_run(DrawStep::Failed, ok);
}

} // verus!
