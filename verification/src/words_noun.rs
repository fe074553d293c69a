//! Noun dictionary: 1024 code words held in implicit
//! binary-search-tree order, written as lines of space-separated words.

use vstd::prelude::*;

use crate::lexicon::push_words;

verus! {

/// The noun word list, in the order the search expects.
pub fn noun_words() -> Vec<String> {
    let mut v: Vec<String> = Vec::new();
    push_words(&mut v, "maufreack floomel sniskaix craifleank gruhaux prailiox swousour broflaurd");
    push_words(&mut v, "draujis gleazum klaifraub numiord skaiskalt stoocliok vevaji bloaprusk");
    push_words(&mut v, "cloahees daiklash faseant froaburk graikloock jeadaspiob koswoond mupeeb");
    push_words(&mut v, "pleebrous riveem slerep spoglaint swaifleal touvirt woustack biogin braclosk");
    push_words(&mut v, "ceevoab clusneek cristroog deedard droadrourn fleakleask foutit gaufreal");
    push_words(&mut v, "glousost griostoost hewoofrees kaitreesh kloablour lilick mivef niolousk");
    push_words(&mut v, "pihoond plouraist propaug sauskourt skobrack smoalut soobrom stearash");
    push_words(&mut v, "striosnef sweecriock teeskostol tropouhand wagloart zidraub beaclunool");
    push_words(&mut v, "blaufeash blusnoorn breskool caistenk cleastraus clouklen cougoox creanubrik");
    push_words(&mut v, "crooprort dasoug doucreard dreejek druploond fiwasking fligodreas foaclem");
    push_words(&mut v, "freedang fruplook geetrozauk gloateant gostash gresnol groopriosk heafaur");
    push_words(&mut v, "hublolt jioblirn keswoart kleplaust koaspaif leecom loofring meklook moopoas");
    push_words(&mut v, "neecriorn nomest paufrirn plaigeep ploakouck pooblost priohait raskesh");
    push_words(&mut v, "roudrord severd skeapraig slaugles slufaig snaubrog snoovef spaubid spubaust");
    push_words(&mut v, "stioslak straufoax strubagu swauspard swoatoark taiwoam toafeesaum triglub");
    push_words(&mut v, "vaufrouk vouvaust weetrau zeamea zopes bajoocrios beestearn bipler bleskaske");
    push_words(&mut v, "bloonedoom bomoand braivoust briowen broubreat ceegoox ciojohaish clibeand");
    push_words(&mut v, "cloofoad clucan coovup couprel crauda criocreard crokaurk cruduflolt daje");
    push_words(&mut v, "daudrix doaskern draimeef dreaglot driclul drospa faihock feesmeat flalek");
    push_words(&mut v, "fleedoox flitom flousnang fooflerd fraijatoas frirouwouk froostroop futrock");
    push_words(&mut v, "geabreest glapliort gliopleack gloudroock glustroand goujaus greagrank");
    push_words(&mut v, "griogrusk groblirm grouswiolt haifroam heetorn hiwoogreen jaipirk jeespount");
    push_words(&mut v, "johauplug keaslair kiopraub klaupet kliogiond kloolaup kodreerd lakaublaup");
    push_words(&mut v, "lezib lioprind lusleemond meblour mionesk moblof mouseerm nauskesk nesmaveab");
    push_words(&mut v, "noamaish nougrosmef paineed peesaund pizag plaumap pliograk ploflut poagoork");
    push_words(&mut v, "poutreet prejeaweag proaspoaf prutaib ribont roboung saifad seatraub sioproult");
    push_words(&mut v, "skaucan skioklurn slagrit sleagoand sloabrult smedraurm smudeend sniblaus");
    push_words(&mut v, "snofreel soavaus souprern spioprint spoupunk staubleern steetoap stoadist");
    push_words(&mut v, "stosaimuck streameeck stroofail susaunk swastoub sweakeant swideen swoowuck");
    push_words(&mut v, "tabairk tauliork tiogeet tole treakarm trogaiwush trureest veasnoand vorousk");
    push_words(&mut v, "vuniock wapurn wiotriot zaugaunk zeestroank zoacaubub zuhoploorm bairast");
    push_words(&mut v, "baulad bedish bejaib biosoniork bladrion bleeglior bliflou bloloonk blopauwonk");
    push_words(&mut v, "boagremoun boucrauf braigeesh breefran brioleeck broceank broospoab brouvaind");
    push_words(&mut v, "cearou ceekling cijouck cioplourn cleesnaif cliodif cloastrain clooplor");
    push_words(&mut v, "clouspe clupriosk cooblarm cosmaidant couhosh couzoacun crasmoorm crauswart");
    push_words(&mut v, "crecloal criproof crofauf croohak croskoof dabrok daisaurt dasmup dauclisust");
    push_words(&mut v, "deasiog diowoub dostreart douweer drauclab draustreak drebib drepeerm");
    push_words(&mut v, "driosnelt drolost droupen fadak faleab fauruhausk fiodiok flaigail flaufoob");
    push_words(&mut v, "flebror fleetard fliogizoak flofroant flootig flouwoop foaresh fouskeacou fox");
    push_words(&mut v, "frauskeend friocrin frisneeng frokoop frousmeast frustid gaswaif gaulox");
    push_words(&mut v, "gecufeng gihairn glaular glerub glipork gloozaist glouloark glozeak gookionoon");
    push_words(&mut v, "goudaist gowan grauspaird gremer gretrust grioplop groagreap groohiol");
    push_words(&mut v, "groucoskea grouwir guplirk haumoong heajaick hegroosk hiovaiglai hoocrauf");
    push_words(&mut v, "huteacaim jaswub jeavurd jibaib joapeet joroosk kazoung keezock kicreerk");
    push_words(&mut v, "kispearn klatar kleebriolt klidrarm kliseask klocroack kloutiolt kobrick");
    push_words(&mut v, "kooplufri kouskeend lealiost leemeern licroank liolax loalurd luhairm maipaick");
    push_words(&mut v, "meacra meesleast mepreapeem mioweanoug moacoam moglalt moucrash mouwast");
    push_words(&mut v, "naiteand neaflaun neesweer nibaund nitoup noariswaur noostog noutrin");
    push_words(&mut v, "pabespoalt paitowaux pausloas peeswoaf pionob pladus plaucrur pleatoalt");
    push_words(&mut v, "pleklonk plistreeb ploavoonk ploomer plucoog poclain poumeeck prafroom");
    push_words(&mut v, "praujiock prevop proaslal projiond prudroa raistrous reavoum riplosh riwiox");
    push_words(&mut v, "rooflond ruvoust saizoofing seagrig seespex sioburt skacraust skateb");
    push_words(&mut v, "skauploort skejeem skivaut skoukaprum slastreak slaujeck sleebart slioceenk");
    push_words(&mut v, "slouslid smeadeesh smeetoack smorourd snaiklauk sneahing snijoup snoaswoorn");
    push_words(&mut v, "snooclacag snutausk sodaush soopour spaihiom speefrob spiwaupron spostung");
    push_words(&mut v, "spoustond staivoock stauspet steerairt steskort stiteg stoafroosk stoonoosk");
    push_words(&mut v, "stoucreat streajujam striblear stroaslick strouprook strukeask susneab swariof");
    push_words(&mut v, "swauprerd swauzoop swebroash sweetock swiotrex swolauhisk swoudrop swustean");
    push_words(&mut v, "tahoorn tauhiok teegrob tefroos tisleeck toawaund toupeb traizoug treglaur");
    push_words(&mut v, "troaclul troomeart trucaig vaizult veableerm veekistol vooborm voupla vuhum");
    push_words(&mut v, "vuvut waisant wecrenk wiofrait woklirk wugaix zeaceb zeataid zejiort");
    push_words(&mut v, "zismoslent zofliozelt zoveag zulut baibrung baispaub bakoudrosk baumurd");
    push_words(&mut v, "beaskeert beebeelt begliod bifeef bioslaub biosweash bisteax blaismof bleafarn");
    push_words(&mut v, "bleelaus bleskearn blisert blokloong bloobrab bloosnam bloureak bluswaig");
    push_words(&mut v, "boastroup booweanag bouspoot braifleap braigliop breacloarm breehak briblaish");
    push_words(&mut v, "briopreab broatrearn brocroader broobroos broovar brougloack caiflir");
    push_words(&mut v, "ceakiviorn ceaspoud ceegriord ceesmoock cepomel ciojof cioliox clafeg");
    push_words(&mut v, "cleebrirn cleeswed clihoun cliosloab cloaplau clooblag cloofort closward");
    push_words(&mut v, "clousmen clouturd clupauf cluroost cluzet cooswufron cosloosh cotair");
    push_words(&mut v, "cougrivoor coukank couwaid craibaish craklimut craswaind crauprerk crawunk");
    push_words(&mut v, "creasnauk crimouf criogroan cristraurm croadaif crofes croobrak crooplaul");
    push_words(&mut v, "croovefern crouslig cuswood dafaird daileem daisleang dakleak dasnaif daswur");
    push_words(&mut v, "daudob deakleat debrad diokleb doarisk doospee doubroab doujoop draijoost");
    push_words(&mut v, "draimoosio draugrous draukeex drauzairt dreajoux dreebeer dreeslaick driclomot");
    push_words(&mut v, "drifrit droableel droaskent drooflaim drougleand drucreelt duskard faicrix");
    push_words(&mut v, "faijog fapleeck fauclul feeslaim fesmigrerk fioloard fizif flaklack flasear");
    push_words(&mut v, "fleabliox fleatoup fleeboask fleepeark flepaurn fliodous fliomant flodrerd");
    push_words(&mut v, "flogead floostos flostong floustrosk fludaufind foaglaim foateck foucostrea");
    push_words(&mut v, "fouskug foutrearm fradreet fraunaf freazai frifort frioswesk friskeel frizesk");
    push_words(&mut v, "froamiosh froobreard frostais frouspaug fruskong fufed gafiort gaufaig");
    push_words(&mut v, "gaugloash geabod geagerm geeciond giboax gioclab glaskib gleastrur glecridun");
    push_words(&mut v, "glionoorm gliosmo gloahilurk gloocloat gloplund glougirk glouskum gloutraunt");
    push_words(&mut v, "gludratri goatafrox goplutant goubair gougeen gouprurk graicroad graunourm");
    push_words(&mut v, "grawig greaspaunk gresid gresnoof grihee grioklusk griosiozur grislaf groaviox");
    push_words(&mut v, "grogloask grookap grosler grousnoorm groutrees grudrund guhol hadrurk haspint");
    push_words(&mut v, "heacrax heafix heasmiok heflairm hespoack hiosnad hismist hoakikloab howort");
    push_words(&mut v, "hurant jagleert jamax jeabonesk jealiofiok jeenap jeezeang jifofirt jiproank");
    push_words(&mut v, "jogresh joohoarn joustait kasnart keahir keasweern keplund kewet kihoam");
    push_words(&mut v, "kiosmoo klagluwuf klaihoarm klaupairee kleasaip kleevaurn klereswoux kliheant");
    push_words(&mut v, "kliosman klitraub kloagroand kloogok klooskir klusteep koaspap kobrig kogroag");
    push_words(&mut v, "kosleark koureenk laiprewest leagaut leaploard leeglauck lestrunk libeerk");
    push_words(&mut v, "lifraind liojocrirm lioprasird loagleard loaswaint loutran lulaid lusloam");
    push_words(&mut v, "masteand maugask measnurk meegleal meesmibrug mepaurk miogeeb miosnag");
    push_words(&mut v, "misasperk moabidrus moaslour mobrast monugroank mososoab mousaplit mouspesk");
    push_words(&mut v, "muforn naigoand naspecel neadoor neahaund neeplaish nemus nesmush niocraush");
    push_words(&mut v, "nionainirk noahourk noamust noasurk noodink nosliorm nouspeerm nubliolt nutid");
    push_words(&mut v, "padriork pairand patiogif pauniom peeglink peestral pesnax piloawount");
    push_words(&mut v, "piostoand placrain plaiflifuk plaloat plaufloank pleaproag plecault plejust");
    push_words(&mut v, "plezeend plislaib plitrirt ploasoul plobeabren ploogoon plooslait ploutroam");
    push_words(&mut v, "poafrees poajead ponios poojik pousweex praflog prahiock praispoack prauswend");
    push_words(&mut v, "premean pribloask proaske proasnaub profraut prooploand proutiot pruhir punaud");
    push_words(&mut v, "raiwoush rausnick reewiflor rioskurk rismab rivoax roabreer rokir roozeax");
    push_words(&mut v, "ruplouk safrouhoa saipant saspoash saustead seasmeash seeraurn seestrount");
    push_words(&mut v, "sezaismis siogult siosiosk skahoop skaprihaig skaubroast skaugark skauviof");
    push_words(&mut v, "skeestes skesmarm skiplang skoaslau skoglast skufeelt slaiswourd slasun");
    push_words(&mut v, "slaujeak slausweab slecloark sleeman slicionk slisweel sloacreast sloustrost");
    push_words(&mut v, "smaweep smeasmar smeesmilt smiobleex smoonoack smoubrart smugirm snaitraun");
    push_words(&mut v, "snaudroarn sneapaus snibrern snimoult sniveeloog snoawoskuf snoklant snoodex");
    push_words(&mut v, "snuhout soarub soblirn sogoak sooneel soovoafruf sousneen spapliop spawapiock");
    push_words(&mut v, "spifrairm spisab spobaikeb spoowast spoukluses spousnux spoutrutus staicrost");
    push_words(&mut v, "stajirk staugleen steaplaum steekloang steeswap steriop stiofliost stiplim");
    push_words(&mut v, "stoacrionk stoaflirn stoareg stoofrok stopeef stoucleest straple straupoust");
    push_words(&mut v, "streameash streeraud striha striospoan stroavund strostoug strouzoob");
    push_words(&mut v, "strubroolt suceslaum suslunk swaidoork swaiswusk swaspourd swaudreg swausmonk");
    push_words(&mut v, "swauziond sweajoont sweaspoask swecleex sweemuck swelen swiokaunt switreerm");
    push_words(&mut v, "swocleek swooskenk swosaholt swoulirm swouzeam swusteep tafloarard taismaing");
    push_words(&mut v, "taucreed taukaik tebirk teejud teesnaig tekea tiosloand tiswunt toaglaist");
    push_words(&mut v, "tolaind touglaick toustreerm traifleesk traucrand treakleard trigeenesk");
    push_words(&mut v, "trilecral trocreep trokidiost troonault troustrad trufleesh vagoopoag vaubleas");
    push_words(&mut v, "vausnoust veaskeeg veeglios veemaskem vodrup voohond voswazoa voupronoad vucup");
    push_words(&mut v, "vunestaist vuskouspit wafant waikound waiveast weamaust weecoacoam wifisk");
    push_words(&mut v, "wioploag wiozeeg woopraurm woustrirm zafreaf zauzaust zeadank zeasneent");
    push_words(&mut v, "zeeblox zeeziont zeloosh zionailt zispoust zoaplert zoocram zouprum zugras");
    push_words(&mut v, "zujubark zuswijiosk bacaix");
    v
}

} // verus!
