//! A VM thread: the current call frame, forming a parent-linked stack,
//! and the thread's two heap generations.

use vstd::prelude::*;

verus! {

/// One call frame: where execution entered, and the frame below it.
pub struct CallFrame {
    pub name: String,
    pub file: String,
    pub line: u32,
    pub parent: Option<Box<CallFrame>>,
}

impl CallFrame {
    /// A frame without a parent.
    pub fn new(name: String, file: String, line: u32) -> (r: CallFrame)
        ensures
            r.name == name,
            r.file == file,
            r.line == line,
            r.parent is None,
    {
        CallFrame { name, file, line, parent: None }
    }

    /// Hangs a parent frame under this one.
    pub fn set_parent(&mut self, parent: CallFrame)
        ensures
            final(self).name == old(self).name,
            final(self).file == old(self).file,
            final(self).line == old(self).line,
            final(self).parent matches Some(p) && *p == parent,
    {
        self.parent = Some(Box::new(parent));
    }
}

/// A unit of compiled code, as far as call frames read it: its name,
/// source file and first line.
pub struct CompiledCode {
    pub name: String,
    pub file: String,
    pub line: u32,
}

/// A heap generation. Its insides are no concern of the call-frame
/// bookkeeping.
pub struct Heap {
    pub allocated: usize,
}

impl Heap {
    /// An empty heap.
    pub fn new() -> (r: Heap)
        ensures
            r.allocated == 0,
    {
        Heap { allocated: 0 }
    }
}

/// A thread: its current call frame and its two heap generations.
pub struct Thread {
    pub call_frame: CallFrame,
    pub young_heap: Heap,
    pub mature_heap: Heap,
}

impl Thread {
    /// A thread starting in the given frame, with fresh heaps.
    pub fn new(call_frame: CallFrame) -> (r: Thread)
        ensures
            r.call_frame == call_frame,
            r.young_heap.allocated == 0,
            r.mature_heap.allocated == 0,
    {
        Thread { call_frame, young_heap: Heap::new(), mature_heap: Heap::new() }
    }

    /// Pushes a frame for the given code: the new current frame carries
    /// the code's name, file and line, and the old frame becomes its
    /// parent.
    pub fn add_call_frame_from_compiled_code(&mut self, code: &CompiledCode)
        ensures
            final(self).call_frame.name == code.name,
            final(self).call_frame.file == code.file,
            final(self).call_frame.line == code.line,
            final(self).call_frame.parent matches Some(p) && *p == old(self).call_frame,
            final(self).young_heap == old(self).young_heap,
            final(self).mature_heap == old(self).mature_heap,
    {
        let mut frame = CallFrame::new(code.name.clone(), code.file.clone(), code.line);
        core::mem::swap(&mut self.call_frame, &mut frame);
        self.call_frame.set_parent(frame);
    }

    /// Pops the current frame: its parent becomes the current frame
    /// again. There must be a parent to return to.
    pub fn pop_call_frame(&mut self)
        requires
            old(self).call_frame.parent is Some,
        ensures
            Some(Box::new(final(self).call_frame)) == old(self).call_frame.parent,
            final(self).young_heap == old(self).young_heap,
            final(self).mature_heap == old(self).mature_heap,
    {
        let mut parent_opt: Option<Box<CallFrame>> = None;
        core::mem::swap(&mut self.call_frame.parent, &mut parent_opt);
        match parent_opt {
            Some(parent) => {
                self.call_frame = *parent;
            },
            None => {
                proof {
                    assert(false);
                }
            },
        }
    }
}

} // verus!
