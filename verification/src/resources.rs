//! The GPU resources of the viewer, by name: what each one needs to exist
//! before it can be created, the order in which startup creates them, and
//! what stands at which binding slot.
//!
//! Every resource is created once, at startup, and lives as long as the
//! process. The caller creates them; `ResourceSet` keeps the book and
//! refuses a creation that comes twice or too early.

use vstd::prelude::*;

verus! {

/// A GPU resource of the viewer.
#[derive(Clone, Copy, Debug, PartialEq, Eq, Structural)]
pub enum Resource {
    /// The shader of the blit stage.
    BlitShader,
    /// The bind set layout of the blit stage.
    BlitLayout,
    /// The pipeline layout of the blit stage.
    BlitPipelineLayout,
    /// The graphics pipeline that paints the display surface.
    BlitPipeline,
    /// The intermediate image that the kernel writes and the blit reads.
    Image,
    /// The view through which the image is bound.
    ImageView,
    /// The device-side buffer of the frame record.
    ConfigBuffer,
    /// The image-synthesis kernel.
    KernelShader,
    /// The bind set layout of the kernel.
    KernelLayout,
    /// The pipeline layout of the kernel.
    KernelPipelineLayout,
    /// The compute pipeline that runs the kernel.
    KernelPipeline,
    /// The bind set of the kernel.
    KernelBindSet,
    /// The sampler through which the blit reads the image.
    Sampler,
    /// The bind set of the blit stage.
    BlitBindSet,
}

/// How many resources there are.
pub const RESOURCE_COUNT: usize = 14;

/// What a binding slot holds.
#[derive(Clone, Copy, Debug, PartialEq, Eq, Structural)]
pub enum BindingKind {
    /// A read-only uniform buffer.
    Uniform,
    /// A write-only two-dimensional image of four 8-bit normalized
    /// channels.
    StorageImage,
    /// A two-dimensional image that is sampled.
    SampledImage,
    /// A sampler that takes the nearest texel and clamps at the edges.
    NearestSampler,
}

/// The shader stage that sees a binding.
#[derive(Clone, Copy, Debug, PartialEq, Eq, Structural)]
pub enum Stage {
    /// The image-synthesis kernel.
    Compute,
    /// The fragment stage of the blit.
    Fragment,
}

/// One slot of a bind set.
#[derive(Clone, Copy, Debug, PartialEq, Eq, Structural)]
pub struct Binding {
    /// The slot number.
    pub slot: u32,
    /// The stage that sees the slot.
    pub stage: Stage,
    /// What kind of thing the slot holds.
    pub kind: BindingKind,
    /// The resource that is bound there.
    pub resource: Resource,
}

/// A creation that the book refuses.
#[derive(Clone, Copy, Debug, PartialEq, Eq, Structural)]
pub enum SetupError {
    /// The resource exists already.
    AlreadyCreated(Resource),
    /// The resource needs another one that does not exist yet.
    Missing { needed: Resource },
}

impl Resource {
    /// The resources that must exist before this one is created, in the
    /// order in which its creation names them.
    pub open spec fn needs(self) -> Seq<Resource> {
        match self {
            Resource::BlitPipelineLayout => seq![Resource::BlitLayout],
            Resource::BlitPipeline => seq![Resource::BlitPipelineLayout, Resource::BlitShader],
            Resource::ImageView => seq![Resource::Image],
            Resource::KernelPipelineLayout => seq![Resource::KernelLayout],
            Resource::KernelPipeline => seq![
                Resource::KernelPipelineLayout,
                Resource::KernelShader,
            ],
            Resource::KernelBindSet => seq![
                Resource::KernelLayout,
                Resource::ConfigBuffer,
                Resource::ImageView,
            ],
            Resource::BlitBindSet => seq![
                Resource::BlitLayout,
                Resource::ImageView,
                Resource::Sampler,
            ],
            _ => Seq::empty(),
        }
    }

    /// The place of the resource in the order of creation, from 0.
    pub open spec fn rank(self) -> int {
        match self {
            Resource::BlitShader => 0,
            Resource::BlitLayout => 1,
            Resource::BlitPipelineLayout => 2,
            Resource::BlitPipeline => 3,
            Resource::Image => 4,
            Resource::ImageView => 5,
            Resource::ConfigBuffer => 6,
            Resource::KernelShader => 7,
            Resource::KernelLayout => 8,
            Resource::KernelPipelineLayout => 9,
            Resource::KernelPipeline => 10,
            Resource::KernelBindSet => 11,
            Resource::Sampler => 12,
            Resource::BlitBindSet => 13,
        }
    }

    /// The resource at a place in the order of creation.
    pub open spec fn ranked(rank: int) -> Resource
        recommends
            0 <= rank < RESOURCE_COUNT,
    {
        if rank == 0 {
            Resource::BlitShader
        } else if rank == 1 {
            Resource::BlitLayout
        } else if rank == 2 {
            Resource::BlitPipelineLayout
        } else if rank == 3 {
            Resource::BlitPipeline
        } else if rank == 4 {
            Resource::Image
        } else if rank == 5 {
            Resource::ImageView
        } else if rank == 6 {
            Resource::ConfigBuffer
        } else if rank == 7 {
            Resource::KernelShader
        } else if rank == 8 {
            Resource::KernelLayout
        } else if rank == 9 {
            Resource::KernelPipelineLayout
        } else if rank == 10 {
            Resource::KernelPipeline
        } else if rank == 11 {
            Resource::KernelBindSet
        } else if rank == 12 {
            Resource::Sampler
        } else {
            Resource::BlitBindSet
        }
    }

    /// The resources that must exist before this one is created.
    pub fn dependencies(self) -> (needed: Vec<Resource>)
        ensures
            needed@ == self.needs(),
    {
        let mut needed: Vec<Resource> = Vec::new();
        match self {
            Resource::BlitPipelineLayout => {
                needed.push(Resource::BlitLayout);
            },
            Resource::BlitPipeline => {
                needed.push(Resource::BlitPipelineLayout);
                needed.push(Resource::BlitShader);
            },
            Resource::ImageView => {
                needed.push(Resource::Image);
            },
            Resource::KernelPipelineLayout => {
                needed.push(Resource::KernelLayout);
            },
            Resource::KernelPipeline => {
                needed.push(Resource::KernelPipelineLayout);
                needed.push(Resource::KernelShader);
            },
            Resource::KernelBindSet => {
                needed.push(Resource::KernelLayout);
                needed.push(Resource::ConfigBuffer);
                needed.push(Resource::ImageView);
            },
            Resource::BlitBindSet => {
                needed.push(Resource::BlitLayout);
                needed.push(Resource::ImageView);
                needed.push(Resource::Sampler);
            },
            _ => {},
        }
        assert(needed@ =~= self.needs());
        needed
    }

    /// The place of the resource in the order of creation, from 0.
    pub fn position(self) -> (rank: usize)
        ensures
            rank == self.rank(),
            rank < RESOURCE_COUNT,
    {
        match self {
            Resource::BlitShader => 0,
            Resource::BlitLayout => 1,
            Resource::BlitPipelineLayout => 2,
            Resource::BlitPipeline => 3,
            Resource::Image => 4,
            Resource::ImageView => 5,
            Resource::ConfigBuffer => 6,
            Resource::KernelShader => 7,
            Resource::KernelLayout => 8,
            Resource::KernelPipelineLayout => 9,
            Resource::KernelPipeline => 10,
            Resource::KernelBindSet => 11,
            Resource::Sampler => 12,
            Resource::BlitBindSet => 13,
        }
    }

    /// The resource at a place in the order of creation, if `rank` is one.
    pub fn at(rank: usize) -> (resource: Option<Resource>)
        ensures
            resource == if rank < RESOURCE_COUNT {
                Some(Resource::ranked(rank as int))
            } else {
                None
            },
    {
        match rank {
            0 => Some(Resource::BlitShader),
            1 => Some(Resource::BlitLayout),
            2 => Some(Resource::BlitPipelineLayout),
            3 => Some(Resource::BlitPipeline),
            4 => Some(Resource::Image),
            5 => Some(Resource::ImageView),
            6 => Some(Resource::ConfigBuffer),
            7 => Some(Resource::KernelShader),
            8 => Some(Resource::KernelLayout),
            9 => Some(Resource::KernelPipelineLayout),
            10 => Some(Resource::KernelPipeline),
            11 => Some(Resource::KernelBindSet),
            12 => Some(Resource::Sampler),
            13 => Some(Resource::BlitBindSet),
            _ => None,
        }
    }
}

impl Resource {
    /// The slots of a bind set, in slot order; no slots for a resource
    /// that is no bind set.
    ///
    /// The kernel reads the frame record at slot 0 and writes the image at
    /// slot 1. The blit samples the image at slot 0 through the sampler at
    /// slot 1.
    pub open spec fn slots(self) -> Seq<Binding> {
        match self {
            Resource::KernelBindSet => seq![
                Binding {
                    slot: 0,
                    stage: Stage::Compute,
                    kind: BindingKind::Uniform,
                    resource: Resource::ConfigBuffer,
                },
                Binding {
                    slot: 1,
                    stage: Stage::Compute,
                    kind: BindingKind::StorageImage,
                    resource: Resource::ImageView,
                },
            ],
            Resource::BlitBindSet => seq![
                Binding {
                    slot: 0,
                    stage: Stage::Fragment,
                    kind: BindingKind::SampledImage,
                    resource: Resource::ImageView,
                },
                Binding {
                    slot: 1,
                    stage: Stage::Fragment,
                    kind: BindingKind::NearestSampler,
                    resource: Resource::Sampler,
                },
            ],
            _ => Seq::empty(),
        }
    }

    /// The slots of a bind set, in slot order; no slots for a resource
    /// that is no bind set.
    pub fn bindings(self) -> (slots: Vec<Binding>)
        ensures
            slots@ == self.slots(),
    {
        let mut slots: Vec<Binding> = Vec::new();
        match self {
            Resource::KernelBindSet => {
                slots.push(
                    Binding {
                        slot: 0,
                        stage: Stage::Compute,
                        kind: BindingKind::Uniform,
                        resource: Resource::ConfigBuffer,
                    },
                );
                slots.push(
                    Binding {
                        slot: 1,
                        stage: Stage::Compute,
                        kind: BindingKind::StorageImage,
                        resource: Resource::ImageView,
                    },
                );
            },
            Resource::BlitBindSet => {
                slots.push(
                    Binding {
                        slot: 0,
                        stage: Stage::Fragment,
                        kind: BindingKind::SampledImage,
                        resource: Resource::ImageView,
                    },
                );
                slots.push(
                    Binding {
                        slot: 1,
                        stage: Stage::Fragment,
                        kind: BindingKind::NearestSampler,
                        resource: Resource::Sampler,
                    },
                );
            },
            _ => {},
        }
        assert(slots@ =~= self.slots());
        slots
    }
}

/// The slots of a bind set are numbered from 0 in their order, and what
/// stands in a slot is among what the bind set needs, so it exists when
/// the bind set is created.
pub proof fn lemma_slots_are_needed(set: Resource, i: int)
    requires
        0 <= i < set.slots().len(),
    ensures
        set.slots()[i].slot == i,
        set.needs().contains(set.slots()[i].resource),
        set.slots()[i].resource.rank() < set.rank(),
{
    let bound = set.slots()[i].resource;
    match set {
        Resource::KernelBindSet => {
            assert(set.needs()[i + 1] == bound);
        },
        Resource::BlitBindSet => {
            assert(set.needs()[i + 1] == bound);
        },
        _ => {},
    }
}

/// The order in which startup creates the resources.
pub open spec fn order() -> Seq<Resource> {
    Seq::new(RESOURCE_COUNT as nat, |rank: int| Resource::ranked(rank))
}

/// The order of creation names every resource once: each has its place,
/// and no two share one.
pub proof fn lemma_order_is_complete(resource: Resource)
    ensures
        0 <= resource.rank() < RESOURCE_COUNT,
        order()[resource.rank()] == resource,
        forall|rank: int|
            0 <= rank < RESOURCE_COUNT ==> (#[trigger] Resource::ranked(rank)).rank() == rank,
{
}

/// In the order of creation, whatever a resource needs comes before it:
/// layouts before pipelines, pipelines and bound resources before bind
/// sets.
pub proof fn lemma_needs_come_first(resource: Resource, i: int)
    requires
        0 <= i < resource.needs().len(),
    ensures
        resource.needs()[i].rank() < resource.rank(),
{
}

/// The order in which startup creates the resources.
pub fn creation_order() -> (resources: Vec<Resource>)
    ensures
        resources@ == order(),
{
    let mut resources: Vec<Resource> = Vec::new();
    let mut rank: usize = 0;
    while rank < RESOURCE_COUNT
        invariant
            rank <= RESOURCE_COUNT,
            resources@.len() == rank,
            forall|i: int| 0 <= i < rank ==> resources@[i] == Resource::ranked(i),
        decreases RESOURCE_COUNT - rank,
    {
        match Resource::at(rank) {
            Some(resource) => {
                resources.push(resource);
            },
            None => {},
        }
        rank = rank + 1;
    }
    assert(resources@ =~= order());
    resources
}

/// The first of `needed` that is not among `created`, if there is one.
pub open spec fn first_missing(created: Seq<Resource>, needed: Seq<Resource>) -> Option<Resource>
    decreases needed.len(),
{
    if needed.len() == 0 {
        None
    } else if !created.contains(needed.first()) {
        Some(needed.first())
    } else {
        first_missing(created, needed.drop_first())
    }
}

/// Why `resource` cannot be created after `created`, if it cannot: it
/// exists already, or something that it needs does not exist yet.
pub open spec fn refusal(created: Seq<Resource>, resource: Resource) -> Option<SetupError> {
    if created.contains(resource) {
        Some(SetupError::AlreadyCreated(resource))
    } else {
        match first_missing(created, resource.needs()) {
            Some(needed) => Some(SetupError::Missing { needed }),
            None => None,
        }
    }
}

/// Whether a sequence of creations is one that the book allows: nothing
/// is created twice, and whatever a resource needs was created before it.
pub open spec fn well_ordered(created: Seq<Resource>) -> bool {
    &&& created.no_duplicates()
    &&& forall|i: int, k: int|
        #![trigger created[i], created[i].needs()[k]]
        0 <= i < created.len() && 0 <= k < created[i].needs().len() ==> created.take(i).contains(
            created[i].needs()[k],
        )
}

/// Whether every resource is among `created`.
pub open spec fn complete(created: Seq<Resource>) -> bool {
    forall|resource: Resource| created.contains(resource)
}

/// Nothing is missing exactly when all that is needed is there.
pub proof fn lemma_first_missing(created: Seq<Resource>, needed: Seq<Resource>)
    ensures
        first_missing(created, needed) is None <==> forall|k: int|
            0 <= k < needed.len() ==> created.contains(#[trigger] needed[k]),
        first_missing(created, needed) matches Some(resource) ==> needed.contains(resource)
            && !created.contains(resource),
    decreases needed.len(),
{
    if needed.len() > 0 {
        let rest = needed.drop_first();
        lemma_first_missing(created, rest);
        if created.contains(needed.first()) {
            assert forall|k: int| 0 <= k < needed.len() && (forall|j: int|
                0 <= j < rest.len() ==> created.contains(#[trigger] rest[j]))
                implies created.contains(#[trigger] needed[k]) by {
                if k > 0 {
                    assert(rest[k - 1] == needed[k]);
                }
            }
            assert forall|j: int| 0 <= j < rest.len() && (forall|k: int|
                0 <= k < needed.len() ==> created.contains(#[trigger] needed[k]))
                implies created.contains(#[trigger] rest[j]) by {
                assert(needed[j + 1] == rest[j]);
            }
            if let Some(resource) = first_missing(created, rest) {
                let j = choose|j: int| 0 <= j < rest.len() && rest[j] == resource;
                assert(needed[j + 1] == resource);
            }
        } else {
            assert(needed[0] == needed.first());
        }
    }
}

/// The order of creation is one that the book allows, and it is complete.
pub proof fn lemma_order_is_well_ordered()
    ensures
        well_ordered(order()),
        complete(order()),
{
    let all = order();
    assert forall|i: int, j: int| 0 <= i < all.len() && 0 <= j < all.len() && i != j implies all[i]
        != all[j] by {
        lemma_order_is_complete(all[i]);
    }
    assert forall|i: int, k: int|
        #![trigger all[i], all[i].needs()[k]]
        0 <= i < all.len() && 0 <= k < all[i].needs().len() implies all.take(i).contains(
        all[i].needs()[k],
    ) by {
        let needed = all[i].needs()[k];
        lemma_needs_come_first(all[i], k);
        lemma_order_is_complete(all[i]);
        lemma_order_is_complete(needed);
        assert(all.take(i)[needed.rank()] == needed);
    }
    assert forall|resource: Resource| all.contains(resource) by {
        lemma_order_is_complete(resource);
        assert(all[resource.rank()] == resource);
    }
}

/// A copy of a list of resources.
fn copy_of(resources: &Vec<Resource>) -> (copy: Vec<Resource>)
    ensures
        copy@ == resources@,
{
    let mut copy: Vec<Resource> = Vec::new();
    let mut i: usize = 0;
    while i < resources.len()
        invariant
            i <= resources@.len(),
            copy@ == resources@.take(i as int),
        decreases resources@.len() - i,
    {
        copy.push(resources[i]);
        assert(copy@ =~= resources@.take(i + 1));
        i = i + 1;
    }
    assert(copy@ =~= resources@);
    copy
}

/// The book of what has been created, in the order of creation.
pub struct ResourceSet {
    created: Vec<Resource>,
}

impl View for ResourceSet {
    type V = Seq<Resource>;

    closed spec fn view(&self) -> Seq<Resource> {
        self.created@
    }
}

impl ResourceSet {
    #[verifier::type_invariant]
    spec fn kept_in_order(self) -> bool {
        well_ordered(self.created@)
    }

    /// A book with nothing created.
    pub fn new() -> (set: ResourceSet)
        ensures
            set@ == Seq::<Resource>::empty(),
    {
        ResourceSet { created: Vec::new() }
    }

    /// What has been created, in the order of creation: nothing twice,
    /// nothing before what it needs.
    pub fn created(&self) -> (created: Vec<Resource>)
        ensures
            created@ == self@,
            well_ordered(created@),
    {
        proof {
            use_type_invariant(self);
        }
        copy_of(&self.created)
    }

    /// Whether `resource` has been created.
    pub fn contains(&self, resource: Resource) -> (found: bool)
        ensures
            found == self@.contains(resource),
    {
        let mut i: usize = 0;
        while i < self.created.len()
            invariant
                i <= self.created@.len(),
                forall|j: int| 0 <= j < i ==> self.created@[j] != resource,
            decreases self.created@.len() - i,
        {
            if self.created[i] == resource {
                return true;
            }
            i = i + 1;
        }
        false
    }

    /// Whether `resource` can be created now, and if not, why.
    pub fn check(&self, resource: Resource) -> (verdict: Result<(), SetupError>)
        ensures
            verdict == match refusal(self@, resource) {
                Some(error) => Err::<(), SetupError>(error),
                None => Ok::<(), SetupError>(()),
            },
    {
        if self.contains(resource) {
            return Err(SetupError::AlreadyCreated(resource));
        }
        let needed = resource.dependencies();
        let mut k: usize = 0;
        assert(needed@.skip(0) =~= needed@);
        while k < needed.len()
            invariant
                k <= needed@.len(),
                needed@ == resource.needs(),
                !self@.contains(resource),
                first_missing(self@, needed@) == first_missing(self@, needed@.skip(k as int)),
            decreases needed@.len() - k,
        {
            proof {
                let rest = needed@.skip(k as int);
                assert(rest.len() > 0);
                assert(rest.first() == needed@[k as int]);
                assert(rest.drop_first() =~= needed@.skip(k + 1));
            }
            if !self.contains(needed[k]) {
                return Err(SetupError::Missing { needed: needed[k] });
            }
            k = k + 1;
        }
        assert(needed@.skip(k as int).len() == 0);
        Ok(())
    }

    /// Enters the creation of `resource` in the book, unless it comes
    /// twice or too early: then the book stays as it is and the error says
    /// which.
    pub fn create(&mut self, resource: Resource) -> (verdict: Result<(), SetupError>)
        ensures
            verdict == match refusal(old(self)@, resource) {
                Some(error) => Err::<(), SetupError>(error),
                None => Ok::<(), SetupError>(()),
            },
            final(self)@ == if verdict.is_ok() {
                old(self)@.push(resource)
            } else {
                old(self)@
            },
    {
        proof {
            use_type_invariant(&*self);
        }
        match self.check(resource) {
            Ok(()) => {
                proof {
                    let before = self.created@;
                    let after = before.push(resource);
                    lemma_first_missing(before, resource.needs());
                    assert forall|i: int, k: int|
                        #![trigger after[i], after[i].needs()[k]]
                        0 <= i < after.len() && 0 <= k < after[i].needs().len()
                        implies after.take(i).contains(after[i].needs()[k]) by {
                        if i < before.len() {
                            assert(after.take(i) =~= before.take(i));
                            assert(after[i] == before[i]);
                        } else {
                            assert(after.take(i) =~= before);
                        }
                    }
                    assert(after.no_duplicates());
                }
                let mut created = copy_of(&self.created);
                created.push(resource);
                self.created = created;
                Ok(())
            },
            Err(error) => Err(error),
        }
    }

    /// The resource to create next: the first in the order of creation
    /// that does not exist yet. Its creation is not refused. `None` when
    /// every resource exists.
    pub fn next(&self) -> (resource: Option<Resource>)
        ensures
            resource is None <==> complete(self@),
            resource matches Some(resource) ==> {
                &&& !self@.contains(resource)
                &&& refusal(self@, resource) is None
                &&& forall|rank: int|
                    0 <= rank < resource.rank() ==> self@.contains(
                        #[trigger] Resource::ranked(rank),
                    )
            },
    {
        let mut rank: usize = 0;
        while rank < RESOURCE_COUNT
            invariant
                rank <= RESOURCE_COUNT,
                forall|earlier: int|
                    0 <= earlier < rank ==> self@.contains(#[trigger] Resource::ranked(earlier)),
            decreases RESOURCE_COUNT - rank,
        {
            match Resource::at(rank) {
                Some(resource) => {
                    if !self.contains(resource) {
                        proof {
                            lemma_order_is_complete(resource);
                            assert forall|k: int|
                                0 <= k < resource.needs().len() implies self@.contains(
                                #[trigger] resource.needs()[k],
                            ) by {
                                let needed = resource.needs()[k];
                                lemma_needs_come_first(resource, k);
                                lemma_order_is_complete(needed);
                                assert(Resource::ranked(needed.rank()) == needed);
                            }
                            lemma_first_missing(self@, resource.needs());
                        }
                        return Some(resource);
                    }
                },
                None => {},
            }
            rank = rank + 1;
        }
        proof {
            assert forall|resource: Resource| self@.contains(resource) by {
                lemma_order_is_complete(resource);
                assert(Resource::ranked(resource.rank()) == resource);
            }
        }
        None
    }

    /// Whether every resource exists.
    pub fn is_complete(&self) -> (done: bool)
        ensures
            done == complete(self@),
    {
        self.next().is_none()
    }
}

} // verus!
