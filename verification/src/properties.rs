//! Runtime stack frames through which expressions see their properties.

use vstd::prelude::*;
use std::rc::Rc;

verus! {

/// One frame of the runtime properties stack: the frame of the enclosing
/// component, if any, sits behind `parent`.
pub struct RuntimePropertiesStackFrame {
    pub parent: Option<Rc<RuntimePropertiesStackFrame>>,
}

} // verus!
