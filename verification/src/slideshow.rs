//! The playlist controller: it owns the shuffled file list, the active
//! transition and the timer, and decides — one tick at a time — when the
//! host must load the next image, how a loaded image is fitted and
//! handed to the transition, and when the advance event is armed after a
//! reveal completes.  The host does the loading, the clock and the
//! drawing.

use vstd::prelude::*;

use crate::canvas::Canvas;
use crate::fitter::fit_frame;
use crate::fitter::FitError;
use crate::frame::Frame;
use crate::random::shuffle;
use crate::sync_timer::fired_ids;
use crate::sync_timer::kept_events;
use crate::sync_timer::lemma_filter_subset;
use crate::sync_timer::SyncEvent;
use crate::sync_timer::SyncTimer;
use crate::transitions::transition::known_transition_name;
use crate::transitions::transition::transition_draw_rel;
use crate::transitions::transition::transition_initial;
use crate::transitions::transition::transition_update_rel;
use crate::transitions::transition::Transition;

verus! {

/// Milliseconds between the end of one reveal and the next image load.
pub const LOAD_IMAGE_DELAY: u64 = 5_000;

/// Why the slideshow cannot be configured.
#[derive(Clone, Copy, PartialEq, Eq, Structural, Debug)]
pub enum ConfigError {
    /// The image list is empty.
    NoImages,
    /// The requested transition name is not one of the known effects.
    UnknownTransition,
}

/// The slideshow driver.
pub struct SlideShow {
    pub timer: SyncTimer,
    pub file_names: Vec<String>,
    pub file_index: usize,
    pub transition: Transition,
    pub waiting_for_next_image: bool,
    pub first: bool,
}

impl SlideShow {
    /// The only event the controller ever arms is the advance event, so
    /// a poll that reports anything reports an advance.
    pub open spec fn wf(&self) -> bool {
        &&& self.file_names@.len() > 0
        &&& self.file_index < self.file_names@.len()
        &&& self.transition.wf()
        &&& (forall|i: int|
            0 <= i < self.timer.events@.len() ==> (#[trigger] self.timer.events@[i]).id@
                == "next_image"@)
    }

    /// Configure a slideshow: the file list is shuffled once and then
    /// consumed cyclically, and the transition is selected by name — an
    /// absent name means the fade.  An unknown name, or an empty list,
    /// is a configuration error.
    pub fn new(file_names: Vec<String>, transition_name: Option<&str>) -> (r: Result<
        SlideShow,
        ConfigError,
    >)
        ensures
            r is Ok <==> (file_names@.len() > 0 && (transition_name matches Some(n)
                ==> known_transition_name(n@))),
            r matches Err(e) ==> e == (if transition_name matches Some(n)
                && !known_transition_name(n@) {
                ConfigError::UnknownTransition
            } else {
                ConfigError::NoImages
            }),
            r matches Ok(s) ==> ({
                &&& s.wf()
                &&& s.file_names@.len() == file_names@.len()
                &&& s.file_names@.to_multiset() == file_names@.to_multiset()
                &&& s.file_index == 0
                &&& s.timer.events@ == Seq::<SyncEvent>::empty()
                &&& s.waiting_for_next_image
                &&& s.first
                &&& transition_initial(
                    s.transition,
                    match transition_name {
                        Some(n) => n@,
                        None => "fade"@,
                    },
                )
            }),
    {
        let mut file_names = file_names;
        let transition = match transition_name {
            Some(name) => {
                match Transition::from_name(name) {
                    Some(t) => t,
                    None => {
                        return Err(ConfigError::UnknownTransition);
                    },
                }
            },
            None => {
                match Transition::from_name("fade") {
                    Some(t) => t,
                    None => {
                        proof {
                            assert(false);
                        }
                        return Err(ConfigError::NoImages);
                    },
                }
            },
        };
        if file_names.is_empty() {
            return Err(ConfigError::NoImages);
        }
        shuffle(&mut file_names);
        Ok(
            SlideShow {
                timer: SyncTimer::new(),
                file_names,
                file_index: 0,
                transition,
                waiting_for_next_image: true,
                first: true,
            },
        )
    }

    /// One tick of the update phase: poll the timer at `now`.  On the
    /// very first tick, and whenever the advance event has fired, the
    /// controller hands back the next file name — wrapping past the end
    /// of the list — for the host to load; otherwise there is nothing to
    /// do.
    pub fn update(&mut self, now: u64) -> (r: Option<String>)
        requires
            old(self).wf(),
        ensures
            final(self).wf(),
            final(self).file_names@ == old(self).file_names@,
            final(self).transition == old(self).transition,
            final(self).waiting_for_next_image == old(self).waiting_for_next_image,
            final(self).timer.events@ == kept_events(old(self).timer.events@, now),
            ({
                let fired = fired_ids(old(self).timer.events@, now);
                if old(self).first || fired.len() > 0 {
                    &&& r == Some(old(self).file_names@[old(self).file_index as int])
                    &&& !final(self).first
                    &&& final(self).file_index == (if old(self).file_index + 1 == old(
                        self,
                    ).file_names@.len() {
                        0int
                    } else {
                        old(self).file_index + 1
                    })
                } else {
                    &&& r is None
                    &&& final(self).first == old(self).first
                    &&& final(self).file_index == old(self).file_index
                }
            }),
    {
        let ghost events0 = self.timer.events@;
        let fired = self.timer.fired(now);
        proof {
            let pred = |e: SyncEvent| e.recurring || !crate::sync_timer::fires(e, now);
            let kept = kept_events(events0, now);
            assert forall|i: int| 0 <= i < kept.len() implies (#[trigger] kept[i]).id@
                == "next_image"@ by {
                broadcast use vstd::seq_lib::group_filter_ensures;

                let x = events0.filter(pred)[i];
                lemma_filter_subset(events0, pred, x);
                let m = choose|m: int| 0 <= m < events0.len() && events0[m] == x;
                assert(events0[m].id@ == "next_image"@);
            }
        }
        if self.first || fired.len() > 0 {
            self.first = false;
            let len = self.file_names.len();
            let name = self.file_names[self.file_index].clone();
            self.file_index = self.file_index + 1;
            if self.file_index >= len {
                self.file_index = 0;
            }
            Some(name)
        } else {
            None
        }
    }

    /// Fit a freshly loaded image to the canvas and hand it to the
    /// active transition, ending the waiting phase.  Degenerate
    /// dimensions are rejected and leave the controller untouched.
    pub fn install_image(&mut self, frame: Frame, tw: u32, th: u32) -> (r: Result<(), FitError>)
        requires
            old(self).wf(),
            frame.wf(),
        ensures
            final(self).wf(),
            final(self).file_names@ == old(self).file_names@,
            final(self).file_index == old(self).file_index,
            final(self).first == old(self).first,
            final(self).timer.events@ == old(self).timer.events@,
            r is Ok <==> (frame.width > 0 && frame.height > 0 && tw > 0 && th > 0 && 4 * tw * th
                <= usize::MAX),
            r matches Err(e) ==> e == FitError::InvalidDimensions && *final(self) == *old(self),
            r is Ok ==> ({
                &&& !final(self).waiting_for_next_image
                &&& exists|f: Frame|
                    {
                        let g = crate::fitter::spec_fit(
                            frame.width as int,
                            frame.height as int,
                            tw as int,
                            th as int,
                        );
                        &&& f.wf()
                        &&& f.width == tw
                        &&& f.height == th
                        &&& f.pixels@ == crate::fitter::letterbox_pixels(
                            crate::fitter::resample_of(
                                frame.pixels@,
                                frame.width as int,
                                frame.height as int,
                                g.width as int,
                                g.height as int,
                            ),
                            g.width as int,
                            g.height as int,
                            tw as int,
                            th as int,
                            g.offset_x as int,
                            g.offset_y as int,
                        )
                        &&& #[trigger] transition_update_rel(
                            old(self).transition,
                            final(self).transition,
                            f,
                        )
                    }
            }),
    {
        match fit_frame(&frame, tw, th) {
            Ok(fitted) => {
                let ghost f = fitted;
                self.transition.update_image(fitted);
                self.waiting_for_next_image = false;
                proof {
                    assert(transition_update_rel(old(self).transition, self.transition, f));
                }
                Ok(())
            },
            Err(e) => Err(e),
        }
    }

    /// One tick of the draw phase.  While the controller waits for the
    /// next image nothing is drawn.  Otherwise the active transition
    /// advances one step; the step that reports completion arms the
    /// one-shot advance event with the configured cooldown and returns
    /// the controller to the waiting phase.
    pub fn draw(&mut self, now: u64, canvas: &mut Canvas) -> (running: bool)
        requires
            old(self).wf(),
        ensures
            final(self).wf(),
            final(self).file_names@ == old(self).file_names@,
            final(self).file_index == old(self).file_index,
            final(self).first == old(self).first,
            old(self).waiting_for_next_image ==> *final(self) == *old(self) && final(canvas).ops@
                == old(canvas).ops@ && !running,
            !old(self).waiting_for_next_image ==> ({
                &&& transition_draw_rel(
                    old(self).transition,
                    final(self).transition,
                    old(canvas).ops@,
                    final(canvas).ops@,
                    running,
                )
                &&& (running ==> !final(self).waiting_for_next_image && final(self).timer.events@
                    == old(self).timer.events@)
                &&& (!running ==> final(self).waiting_for_next_image && ({
                    let evs = final(self).timer.events@;
                    &&& evs.len() == old(self).timer.events@.len() + 1
                    &&& evs.take(evs.len() - 1) == old(self).timer.events@
                    &&& evs.last().id@ == "next_image"@
                    &&& evs.last().start == now
                    &&& evs.last().after == LOAD_IMAGE_DELAY
                    &&& !evs.last().recurring
                }))
            }),
    {
        if self.waiting_for_next_image {
            return false;
        }
        let running = self.transition.draw(canvas);
        if !running {
            let ghost events0 = self.timer.events@;
            self.timer.add(SyncEvent::new("next_image", LOAD_IMAGE_DELAY, false, now));
            self.waiting_for_next_image = true;
            proof {
                assert(self.timer.events@.take(self.timer.events@.len() - 1) =~= events0);
            }
        }
        running
    }
}

} // verus!
