//! What is submitted to draw a frame.

use super::buffer::VulkanBuffer;
use super::Vulkan;
use vstd::prelude::*;

verus! {

/// What is known of the drawing of a frame.
#[derive(Debug, Clone, Copy, PartialEq, Eq, Structural)]
pub enum RenderEvent {
    /// Nothing yet.
    Start,
    /// Whether the buffer is no longer shown.
    BufferFence { signalled: bool },
    /// Whether what was last submitted for the buffer is done.
    CommandFence { signalled: bool },
    /// The command with this index was done.
    Ran { index: usize },
    /// A fence could not be asked, or a command could not be done.
    Failed,
}

/// One call to Vulkan.
#[derive(Debug, Clone, Copy, PartialEq, Eq, Structural)]
pub enum RenderCommand {
    ResetFences { buffer_fence: u64, cmd_fence: u64 },
    ResetCommands { cmd: u64 },
    /// Begins to record commands that are submitted once.
    Begin { cmd: u64 },
    /// Has the image laid out anew before colours are written.
    LayOut { cmd: u64, image: u64 },
    /// Begins to draw on a cleared image.
    BeginRendering { cmd: u64, image_view: u64, color: usize, width: u32, height: u32 },
    EndRendering { cmd: u64 },
    End { cmd: u64 },
    /// Submits what was recorded. The semaphore and the fence signal when it is done.
    Submit { queue: u64, cmd: u64, semaphore: u64, cmd_fence: u64 },
}

/// What to do next to draw a frame.
#[derive(Debug, Clone, Copy, PartialEq, Eq, Structural)]
pub enum RenderAction {
    /// Find out whether the fence is signalled.
    CheckFence(u64),
    /// The buffer is in use: try again later.
    Pending,
    /// Do the command with this index.
    Run { index: usize, command: RenderCommand },
    /// The frame is drawn.
    Ready,
    /// Return the error.
    Fail,
}

/// The number of commands that draw a frame.
pub const COMMANDS: usize = 8;

/// All that is done to draw a frame into a free buffer, in its order: the image
/// is filled with the colour of the frame.
pub open spec fn frame_commands(
    vulkan: Vulkan,
    buffer: VulkanBuffer,
    frame: usize,
    colors: usize,
) -> Seq<RenderCommand> {
    let cmd = buffer.cmd.handle;
    seq![
        RenderCommand::ResetFences { buffer_fence: buffer.fence, cmd_fence: buffer.cmd_fence },
        RenderCommand::ResetCommands { cmd },
        RenderCommand::Begin { cmd },
        RenderCommand::LayOut { cmd, image: buffer.image },
        RenderCommand::BeginRendering {
            cmd,
            image_view: buffer.image_view,
            color: (frame as int % colors as int) as usize,
            width: buffer.size.0,
            height: buffer.size.1,
        },
        RenderCommand::EndRendering { cmd },
        RenderCommand::End { cmd },
        RenderCommand::Submit {
            queue: vulkan.queue,
            cmd,
            semaphore: buffer.semaphore,
            cmd_fence: buffer.cmd_fence,
        },
    ]
}

/// What follows an event.
pub open spec fn render_action(
    vulkan: Vulkan,
    buffer: VulkanBuffer,
    frame: usize,
    colors: usize,
    event: RenderEvent,
) -> RenderAction {
    let commands = frame_commands(vulkan, buffer, frame, colors);
    match event {
        RenderEvent::Start => RenderAction::CheckFence(buffer.fence),
        RenderEvent::BufferFence { signalled } => if signalled {
            RenderAction::CheckFence(buffer.cmd_fence)
        } else {
            RenderAction::Pending
        },
        RenderEvent::CommandFence { signalled } => if signalled {
            RenderAction::Run { index: 0, command: commands[0] }
        } else {
            RenderAction::Pending
        },
        RenderEvent::Ran { index } => if index + 1 < commands.len() {
            RenderAction::Run { index: (index + 1) as usize, command: commands[index + 1] }
        } else {
            RenderAction::Ready
        },
        RenderEvent::Failed => RenderAction::Fail,
    }
}

impl Vulkan {
    /// One of the commands that draw a frame.
    fn frame_command(
        &self,
        buffer: &VulkanBuffer,
        frame: usize,
        colors: usize,
        index: usize,
    ) -> (r: RenderCommand)
        requires
            colors > 0,
            index < COMMANDS,
        ensures
            r == frame_commands(*self, *buffer, frame, colors)[index as int],
    {
        let cmd: u64 = buffer.cmd.handle;
        match index {
            0 => RenderCommand::ResetFences {
                buffer_fence: buffer.fence,
                cmd_fence: buffer.cmd_fence,
            },
            1 => RenderCommand::ResetCommands { cmd },
            2 => RenderCommand::Begin { cmd },
            3 => RenderCommand::LayOut { cmd, image: buffer.image },
            4 => RenderCommand::BeginRendering {
                cmd,
                image_view: buffer.image_view,
                color: frame % colors,
                width: buffer.size.0,
                height: buffer.size.1,
            },
            5 => RenderCommand::EndRendering { cmd },
            6 => RenderCommand::End { cmd },
            _ => RenderCommand::Submit {
                queue: self.queue,
                cmd,
                semaphore: buffer.semaphore,
                cmd_fence: buffer.cmd_fence,
            },
        }
    }

    /// The next step of drawing a frame. A buffer is drawn to when it is no
    /// longer shown and what was submitted for it before is done, and the
    /// second is asked only where the first holds. Nothing more is done where
    /// something fails.
    pub fn render(
        &self,
        buffer: &VulkanBuffer,
        frame: usize,
        colors: usize,
        event: RenderEvent,
    ) -> (r: RenderAction)
        requires
            colors > 0,
        ensures
            r == render_action(*self, *buffer, frame, colors, event),
    {
        match event {
            RenderEvent::Start => RenderAction::CheckFence(buffer.fence),
            RenderEvent::BufferFence { signalled } => if signalled {
                RenderAction::CheckFence(buffer.cmd_fence)
            } else {
                RenderAction::Pending
            },
            RenderEvent::CommandFence { signalled } => if signalled {
                RenderAction::Run {
                    index: 0,
                    command: self.frame_command(buffer, frame, colors, 0),
                }
            } else {
                RenderAction::Pending
            },
            RenderEvent::Ran { index } => if index < COMMANDS - 1 {
                RenderAction::Run {
                    index: index + 1,
                    command: self.frame_command(buffer, frame, colors, index + 1),
                }
            } else {
                RenderAction::Ready
            },
            RenderEvent::Failed => RenderAction::Fail,
        }
    }
}

/// A frame is submitted last, and once. Both the fence that the submission
/// signals and the fence that the next scanout signals were reset before
/// anything was recorded.
pub proof fn fences_are_reset_before_they_signal(
    vulkan: Vulkan,
    buffer: VulkanBuffer,
    frame: usize,
    colors: usize,
)
    ensures
        ({
            let commands = frame_commands(vulkan, buffer, frame, colors);
            &&& commands.len() == COMMANDS
            &&& commands.first() == (RenderCommand::ResetFences {
                buffer_fence: buffer.fence,
                cmd_fence: buffer.cmd_fence,
            })
            &&& commands.last() matches RenderCommand::Submit { cmd_fence: signalled, .. }
                && signalled == buffer.cmd_fence
            &&& forall|k: int|
                0 <= k < commands.len() - 1 ==> !(#[trigger] commands[k] is Submit)
        }),
{
}

/// A buffer is drawn to only where it is no longer shown and what was submitted
/// for it before is done: while either fence is not signalled, nothing is done,
/// the second is asked only once the first is signalled, and the first command
/// follows only where the second is.
pub proof fn drawing_waits_for_both_fences(
    vulkan: Vulkan,
    buffer: VulkanBuffer,
    frame: usize,
    colors: usize,
    event: RenderEvent,
)
    ensures
        ({
            let action = render_action(vulkan, buffer, frame, colors, event);
            &&& event == RenderEvent::Start ==> action == RenderAction::CheckFence(buffer.fence)
            &&& event == (RenderEvent::BufferFence { signalled: false }) ==> action
                == RenderAction::Pending
            &&& event == (RenderEvent::CommandFence { signalled: false }) ==> action
                == RenderAction::Pending
            &&& (action is CheckFence && event != RenderEvent::Start) ==> event == (
            RenderEvent::BufferFence { signalled: true })
            &&& (action matches RenderAction::Run { index, .. } && index == 0) ==> event == (
            RenderEvent::CommandFence { signalled: true })
        }),
{
}

/// Each command is done only where the one before it was done, and the frame is
/// drawn only where the submission was. Where something fails, no command
/// follows.
pub proof fn failures_end_the_drawing(
    vulkan: Vulkan,
    buffer: VulkanBuffer,
    frame: usize,
    colors: usize,
    event: RenderEvent,
)
    ensures
        ({
            let action = render_action(vulkan, buffer, frame, colors, event);
            &&& action == RenderAction::Fail <==> event == RenderEvent::Failed
            &&& (action matches RenderAction::Run { index, .. } && index > 0) ==> (event matches
                RenderEvent::Ran { index: before } && before + 1 == action->index)
            &&& action == RenderAction::Ready ==> (event matches RenderEvent::Ran { index }
                && index >= COMMANDS - 1)
        }),
{
}

/// A frame is drawn into the image of its buffer and nowhere else, by the commands of
/// its buffer, in the order in which Vulkan wants them: what was recorded before is
/// forgotten, recording begins, the image is laid out, drawing begins on all of it and
/// ends, recording ends, and what was recorded is submitted.
pub proof fn frames_are_drawn_to_their_own_image(
    vulkan: Vulkan,
    buffer: VulkanBuffer,
    frame: usize,
    colors: usize,
    k: int,
)
    requires
        colors > 0,
        0 <= k < frame_commands(vulkan, buffer, frame, colors).len(),
    ensures
        match frame_commands(vulkan, buffer, frame, colors)[k] {
            RenderCommand::ResetFences { buffer_fence, cmd_fence } => {
                k == 0 && buffer_fence == buffer.fence && cmd_fence == buffer.cmd_fence
            },
            RenderCommand::ResetCommands { cmd } => k == 1 && cmd == buffer.cmd.handle,
            RenderCommand::Begin { cmd } => k == 2 && cmd == buffer.cmd.handle,
            RenderCommand::LayOut { cmd, image } => {
                k == 3 && cmd == buffer.cmd.handle && image == buffer.image
            },
            RenderCommand::BeginRendering { cmd, image_view, color, width, height } => {
                &&& k == 4 && cmd == buffer.cmd.handle && image_view == buffer.image_view
                &&& color < colors && (frame - color) % (colors as int) == 0
                &&& width == buffer.size.0 && height == buffer.size.1
            },
            RenderCommand::EndRendering { cmd } => k == 5 && cmd == buffer.cmd.handle,
            RenderCommand::End { cmd } => k == 6 && cmd == buffer.cmd.handle,
            RenderCommand::Submit { queue, cmd, semaphore, cmd_fence } => {
                &&& k == 7 && queue == vulkan.queue && cmd == buffer.cmd.handle
                &&& semaphore == buffer.semaphore && cmd_fence == buffer.cmd_fence
            },
        },
        frame_commands(vulkan, buffer, frame, colors).len() == 8,
{
    vstd::arithmetic::div_mod::lemma_fundamental_div_mod(frame as int, colors as int);
    let quotient = frame as int / colors as int;
    vstd::arithmetic::div_mod::lemma_mod_multiples_basic(quotient, colors as int);
    assert(quotient * colors == colors * quotient) by (nonlinear_arith);
    vstd::arithmetic::div_mod::lemma_mod_bound(frame as int, colors as int);
}

/// From the fence of the commands on, a frame is drawn command by command, and it is
/// drawn when the eighth was done.
pub proof fn commands_follow_one_another(
    vulkan: Vulkan,
    buffer: VulkanBuffer,
    frame: usize,
    colors: usize,
    done: usize,
)
    ensures
        ({
            let after = |event: RenderEvent| render_action(vulkan, buffer, frame, colors, event);
            let commands = frame_commands(vulkan, buffer, frame, colors);
            &&& after(RenderEvent::Start) == RenderAction::CheckFence(buffer.fence)
            &&& after(RenderEvent::BufferFence { signalled: true }) == RenderAction::CheckFence(
                buffer.cmd_fence,
            )
            &&& after(RenderEvent::CommandFence { signalled: true }) == (RenderAction::Run {
                index: 0,
                command: commands[0],
            })
            &&& done < 7 ==> after(RenderEvent::Ran { index: done }) == (RenderAction::Run {
                index: (done + 1) as usize,
                command: commands[done + 1],
            })
            &&& done >= 7 ==> after(RenderEvent::Ran { index: done }) == RenderAction::Ready
        }),
{
}

} // verus!
