//! Images: the arguments of a request and what a response holds.

use vstd::prelude::*;

verus! {

/// The form in which generated images come back.
#[derive(Debug, Clone)]
pub enum ResponseFormat {
    Url,
    Base64JSON,
}

/// The arguments of an image request.
#[derive(Debug, Clone)]
pub struct ImageArguments {
    /// A description of the image.
    pub prompt: String,
    /// How many images to generate.
    pub n: Option<u32>,
    /// The form in which the images come back.
    pub response_format: Option<ResponseFormat>,
    /// The side of the images, in pixels.
    pub size: Option<u32>,
    /// An identifier of the end user, if the caller gives one.
    pub user: Option<String>,
}

impl ImageArguments {
    /// The arguments for one image of `prompt`, with every option left open.
    pub fn new(prompt: &str) -> (args: Self)
        ensures
            args.prompt@ == prompt@,
            args.n is None,
            args.response_format is None,
            args.size is None,
            args.user is None,
    {
        ImageArguments {
            prompt: prompt.to_owned(),
            n: None,
            response_format: None,
            size: None,
            user: None,
        }
    }
}

/// One generated image: where it can be fetched, or its data.
#[derive(Debug, Clone)]
pub enum ImageObject {
    Url(String),
    Base64JSON(String),
}

impl ImageObject {
    /// The text that the image came as, whichever form it has.
    pub open spec fn text(self) -> Seq<char> {
        match self {
            ImageObject::Url(text) => text@,
            ImageObject::Base64JSON(text) => text@,
        }
    }
}

/// The response to an image request.
#[derive(Debug, Clone)]
pub struct ImageResponse {
    pub created: u32,
    pub data: Vec<ImageObject>,
}

impl ImageResponse {
    /// The images of the response, each as the text it came as, in order.
    pub fn images(&self) -> (texts: Vec<String>)
        ensures
            texts@.len() == self.data@.len(),
            forall|i: int| 0 <= i < texts@.len() ==> (#[trigger] texts@[i])@ == self.data@[i].text(),
    {
        let mut texts: Vec<String> = Vec::new();
        let mut i: usize = 0;
        while i < self.data.len()
            invariant
                i <= self.data@.len(),
                texts@.len() == i,
                forall|j: int| 0 <= j < i ==> (#[trigger] texts@[j])@ == self.data@[j].text(),
            decreases self.data.len() - i,
        {
            let text = match &self.data[i] {
                ImageObject::Url(text) => text.clone(),
                ImageObject::Base64JSON(text) => text.clone(),
            };
            texts.push(text);
            i += 1;
        }
        texts
    }
}

} // verus!
