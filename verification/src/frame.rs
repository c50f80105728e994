//! Reference-counted in-memory page frames.
//!
//! A [`BufferFrame`] is a cheap, clonable handle to a shared frame record:
//! the page's identity, its byte buffer, and a dirty flag. The byte buffer
//! and the dirty flag are interior-mutable so that the pool and any number
//! of callers can co-own one frame; their contents are therefore opaque to
//! the verifier, and the contracts below speak only of the frame's identity.
//! Overlapping page views are reported, never handed out: a view is an
//! `Option`, and it is the caller's duty to fail fast on `None`.
use crate::page::Page;
use crate::page::PageId;
use core::cell::Cell;
use core::cell::Ref;
use core::cell::RefCell;
use core::cell::RefMut;
use std::sync::Arc;
use vstd::prelude::*;

verus! {

#[verifier::external_type_specification]
#[verifier::external_body]
#[verifier::reject_recursive_types(T)]
pub struct ExCell<T: ?Sized>(Cell<T>);

#[verifier::external_type_specification]
#[verifier::external_body]
#[verifier::reject_recursive_types(T)]
pub struct ExRefCell<T: ?Sized>(RefCell<T>);

#[verifier::external_type_specification]
#[verifier::external_body]
#[verifier::reject_recursive_types(T)]
pub struct ExRef<'b, T: ?Sized>(Ref<'b, T>);

#[verifier::external_type_specification]
#[verifier::external_body]
#[verifier::reject_recursive_types(T)]
pub struct ExRefMut<'b, T: ?Sized + 'b>(RefMut<'b, T>);

/// Relies on `core::cell::Cell::new`: wraps the flag in a fresh cell. The
/// cell's content is interior-mutable and stays opaque to the verifier.
#[verifier::external_body]
fn new_flag_cell(value: bool) -> Cell<bool> {
    Cell::new(value)
}

/// Relies on `core::cell::Cell::get`: returns a copy of the current content.
/// The content is interior-mutable, so nothing is promised of the result.
pub assume_specification<T: Copy>[ Cell::<T>::get ](cell: &Cell<T>) -> T;

/// Relies on `core::cell::Cell::set`: replaces the cell's content.
pub assume_specification<T>[ Cell::<T>::set ](cell: &Cell<T>, value: T);

/// Relies on `core::cell::RefCell::new`: wraps the buffer in a fresh cell.
/// The cell's content is interior-mutable and stays opaque to the verifier.
#[verifier::external_body]
fn new_page_cell(value: Page) -> RefCell<Page> {
    RefCell::new(value)
}

/// Relies on `core::cell::RefCell::try_borrow`: a shared view of the
/// content, or nothing while an exclusive view is alive. Never panics.
#[verifier::external_body]
fn try_borrow_page(cell: &RefCell<Page>) -> Option<Ref<'_, Page>> {
    cell.try_borrow().ok()
}

/// Relies on `core::cell::RefCell::try_borrow_mut`: an exclusive view of
/// the content, or nothing while any other view is alive. Never panics.
#[verifier::external_body]
fn try_borrow_page_mut(cell: &RefCell<Page>) -> Option<RefMut<'_, Page>> {
    cell.try_borrow_mut().ok()
}

/// Relies on `std::sync::Arc::clone`: the clone is a handle to the same
/// allocation, so it carries the same value.
#[verifier::external_body]
fn clone_arc_frame(handle: &Arc<InnerBufferFrame>) -> (res: Arc<InnerBufferFrame>)
    ensures
        res == *handle,
{
    Arc::clone(handle)
}

/// Relies on `std::sync::Arc::strong_count`: the number of strong handles to
/// the allocation. It depends on the whole program's state, so nothing is
/// promised of the result.
#[verifier::external_body]
fn arc_strong_count(handle: &Arc<InnerBufferFrame>) -> usize {
    Arc::strong_count(handle)
}

/// Relies on `std::sync::Arc::weak_count`: the number of weak handles to the
/// allocation. It depends on the whole program's state, so nothing is
/// promised of the result.
#[verifier::external_body]
fn arc_weak_count(handle: &Arc<InnerBufferFrame>) -> usize {
    Arc::weak_count(handle)
}

/// The shared frame record: a page's identity, its byte buffer, and a dirty
/// flag. The identity is immutable for the record's lifetime; the buffer and
/// the flag are interior-mutable and shared by every handle.
#[derive(Debug)]
pub struct InnerBufferFrame {
    page_id: PageId,
    page: RefCell<Page>,
    is_dirty: Cell<bool>,
}

impl PartialEq for InnerBufferFrame {
    fn eq(&self, other: &Self) -> bool {
        self.page_id == other.page_id && self.is_dirty.get() == other.is_dirty.get()
    }
}

impl vstd::std_specs::cmp::PartialEqSpecImpl for InnerBufferFrame {
    open spec fn obeys_eq_spec() -> bool {
        false
    }

    open spec fn eq_spec(&self, other: &Self) -> bool {
        true
    }
}

/// A shared, reference-counted handle to an in-memory page frame.
#[derive(Debug)]
pub struct BufferFrame {
    inner: Arc<InnerBufferFrame>,
}

impl BufferFrame {
    /// The identity of the page this handle's frame holds.
    pub closed spec fn id(self) -> PageId {
        (*self.inner).page_id
    }

    /// Construct a fresh frame holding `page` under the identity `page_id`,
    /// clean, with this handle as its only reference.
    pub fn new(page_id: PageId, page: Page) -> (frame: Self)
        ensures
            frame.id() == page_id,
    {
        Self {
            inner: Arc::new(
                InnerBufferFrame { page_id, page: new_page_cell(page), is_dirty: new_flag_cell(false) },
            ),
        }
    }

    /// The frame's immutable page identity.
    pub fn page_id(&self) -> (id: PageId)
        ensures
            id == self.id(),
    {
        self.inner.page_id
    }

    /// A shared, read-only view of the page bytes, or nothing while an
    /// exclusive view of the same frame is outstanding: overlapping views
    /// are a programmer error, which the caller must treat by failing
    /// fast, never by aliasing silently.
    pub fn get_page_ref(&self) -> Option<Ref<'_, Page>> {
        try_borrow_page(&self.inner.page)
    }

    /// An exclusive, mutable view of the page bytes, or nothing while any
    /// other view of the same frame is outstanding (a programmer error,
    /// which the caller must treat by failing fast). Marks the frame dirty
    /// as a side effect, unconditionally: the flag is set even when the
    /// view is refused, and is never cleared here.
    pub fn get_page_mut(&self) -> Option<RefMut<'_, Page>> {
        self.inner.is_dirty.set(true);
        try_borrow_page_mut(&self.inner.page)
    }

    /// Whether the page bytes were mutated since the frame was constructed.
    /// The flag is shared, interior-mutable state, so nothing is promised of
    /// the result.
    pub fn is_dirty(&self) -> bool {
        self.inner.is_dirty.get()
    }

    /// Whether this handle is the only outstanding reference to the frame.
    /// The reference count is run-time state of the whole program, so
    /// nothing is promised of the result.
    pub fn is_unique(&self) -> bool {
        arc_strong_count(&self.inner) == 1 && arc_weak_count(&self.inner) == 0
    }
}

impl Clone for BufferFrame {
    /// The clone is a handle to the same underlying frame.
    fn clone(&self) -> (res: Self)
        ensures
            res == *self,
    {
        Self { inner: clone_arc_frame(&self.inner) }
    }
}

impl PartialEq for BufferFrame {
    fn eq(&self, other: &Self) -> bool {
        *self.inner == *other.inner
    }
}

impl vstd::std_specs::cmp::PartialEqSpecImpl for BufferFrame {
    open spec fn obeys_eq_spec() -> bool {
        false
    }

    open spec fn eq_spec(&self, other: &Self) -> bool {
        self.id() == other.id()
    }
}

} // verus!
