use vstd::prelude::*;

verus! {

/// Mark a value as `input`. Changes on this argument will have no effect on
/// the task's Verilog argument. This is equivalent to using the argument
/// `E`.
pub struct Input<'a, E> {
    value: E,
    lifetime: core::marker::PhantomData<&'a ()>,
}

/// Mark a value as `output`. Its value will default to [Default::default].
/// Changes will update the argument to the set value at the end of the
/// function call.
pub struct Output<'a, E> {
    pub target: &'a mut E,
}

/// Mark a value as `inout`. Changes will update the argument to the set
/// value at the end of the function call.
pub struct InputOutput<'a, E> {
    pub target: &'a mut E,
}

impl<'a, E> Input<'a, E> {
    /// The value that the argument holds.
    pub closed spec fn spec_value(self) -> E {
        self.value
    }

    /// Takes the value read from the simulator out of `data`.
    pub fn new(data: &mut Option<E>) -> (r: Self)
        requires
            *old(data) is Some,
        ensures
            *old(data) == Some(r.spec_value()),
            *final(data) is None,
    {
        let value = data.take().unwrap();
        Input { value, lifetime: core::marker::PhantomData }
    }

    /// Shared access to the value.
    pub fn value(&self) -> (r: &E)
        ensures
            *r == self.spec_value(),
    {
        &self.value
    }

    /// Unique access to the value.
    pub fn value_mut(&mut self) -> (r: &mut E)
        ensures
            *r == old(self).spec_value(),
            final(self).spec_value() == *final(r),
    {
        &mut self.value
    }

    /// Into inner data.
    pub fn into_inner(self) -> (r: E)
        ensures
            r == self.spec_value(),
    {
        self.value
    }
}

impl<'a, E> Output<'a, E> {
    /// The place that the argument writes to.
    pub open spec fn target(self) -> &'a mut E {
        self.target
    }

    /// The value that an output starts with: the default of its type.
    pub fn initialize_data() -> (r: E)
        where
            E: Default,
        ensures
            call_ensures(E::default, (), r),
    {
        E::default()
    }

    /// The argument that writes to `data`.
    pub fn new(data: &'a mut E) -> (r: Self)
        ensures
            *r.target() == *old(data),
            *final(data) == *final(r.target()),
    {
        Output { target: data }
    }

    /// Shared access to the value.
    pub fn value(&self) -> (r: &E)
        ensures
            *r == *self.target(),
    {
        self.target
    }

    /// Unique access to the value; what is written through it is what the
    /// argument holds afterwards.
    pub fn value_mut(&mut self) -> (r: &mut E)
        ensures
            *r == *old(self).target(),
            *final(self).target() == *final(r),
            *final(old(self).target()) == *final(final(self).target()),
    {
        self.target
    }
}

impl<'a, E> InputOutput<'a, E> {
    /// The place that the argument writes to.
    pub open spec fn target(self) -> &'a mut E {
        self.target
    }

    /// The argument that reads and writes `data`.
    pub fn new(data: &'a mut E) -> (r: Self)
        ensures
            *r.target() == *old(data),
            *final(data) == *final(r.target()),
    {
        InputOutput { target: data }
    }

    /// Shared access to the value.
    pub fn value(&self) -> (r: &E)
        ensures
            *r == *self.target(),
    {
        self.target
    }

    /// Unique access to the value; what is written through it is what the
    /// argument holds afterwards.
    pub fn value_mut(&mut self) -> (r: &mut E)
        ensures
            *r == *old(self).target(),
            *final(self).target() == *final(r),
            *final(old(self).target()) == *final(final(self).target()),
    {
        self.target
    }
}

} // verus!
