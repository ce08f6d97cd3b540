//! A write-once holder for process-wide values that can only be built at run
//! time.

use vstd::prelude::*;

verus! {

/// A cell that starts empty and is filled exactly once. Its model is the
/// value, or `None` before initialization.
pub struct RuntimeStatic<T> {
    data: Option<T>,
}

impl<T> View for RuntimeStatic<T> {
    type V = Option<T>;

    closed spec fn view(&self) -> Option<T> {
        self.data
    }
}

impl<T> RuntimeStatic<T> {
    /// An empty cell.
    pub fn get_uninit() -> (r: Self)
        ensures
            r@ is None,
    {
        RuntimeStatic { data: None }
    }

    pub fn is_init(&self) -> (r: bool)
        ensures
            r == self@ is Some,
    {
        self.data.is_some()
    }

    /// Fills the cell. A second initialization is refused: the value comes
    /// back as the error and the cell keeps its first value.
    pub fn init(&mut self, data: T) -> (r: Result<(), T>)
        ensures
            old(self)@ is None ==> r is Ok && final(self)@ == Some(data),
            old(self)@ is Some ==> r == Err::<(), T>(data) && final(self)@ == old(self)@,
    {
        if self.data.is_some() {
            return Err(data);
        }
        self.data = Some(data);
        Ok(())
    }

    /// The value, or `None` before initialization.
    pub fn get(&self) -> (r: Option<&T>)
        ensures
            match self@ {
                Some(v) => r matches Some(x) && *x == v,
                None => r is None,
            },
    {
        self.data.as_ref()
    }

    /// The value, for writing, or `None` before initialization.
    pub fn get_mut(&mut self) -> (r: Option<&mut T>)
        ensures
            match old(self)@ {
                Some(v) => r matches Some(x) && *x == v && final(self)@ == Some(*final(x)),
                None => r is None && final(self)@ is None,
            },
    {
        self.data.as_mut()
    }
}

} // verus!
